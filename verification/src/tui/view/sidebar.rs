//! Right sidebar with the actors, activity and todos panels. Each panel is a
//! vertical list; focus dictates the border color.
use vstd::prelude::*;
use vstd::string::*;

use crate::text;
use crate::text::align_right;
use crate::text::around;
use crate::text::decimal_text;
use crate::text::same_text;
use crate::text::take_bytes;
use crate::text::take_chars;
use crate::tui::state::ActivityUiRow;
use crate::tui::state::ActivityUiRowView;
use crate::tui::state::ActorRow;
use crate::tui::state::ActorRowView;
use crate::tui::state::AppState;
use crate::tui::state::AppStateView;
use crate::tui::state::Pane;
use crate::tui::state::TodoRow;
use crate::tui::state::TodoRowView;
use crate::tui::view;
use crate::tui::view::focus_border;
use crate::tui::view::layout;
use crate::tui::view::layout::Direction;
use crate::tui::view::layout::Rect;
use crate::tui::view::layout::inner_area;
use crate::tui::view::layout::sidebar_constraints;
use crate::tui::view::layout::split_area;
use crate::tui::view::style;
use crate::tui::view::style::Color;
use crate::tui::view::style::Line;
use crate::tui::view::style::Span;
use crate::tui::view::style::SpanView;
use crate::tui::view::style::Style;

verus! {

/// A bordered list.
#[derive(Debug)]
pub struct Panel {
    pub area: Rect,
    pub border: Style,
    pub title: Line,
    /// Where the lines go.
    pub inner: Rect,
    pub lines: Vec<Line>,
}

/// What a [`Panel`] holds.
pub struct PanelView {
    pub area: Rect,
    pub border: Style,
    pub title: Seq<SpanView>,
    pub inner: Rect,
    pub lines: Seq<Seq<SpanView>>,
}

impl View for Panel {
    type V = PanelView;

    open spec fn view(&self) -> PanelView {
        PanelView {
            area: self.area,
            border: self.border,
            title: self.title@,
            inner: self.inner,
            lines: text::views(self.lines@),
        }
    }
}

/// The title of a panel: its name and how many entries it has.
pub open spec fn panel_title(name: Seq<char>, n: nat) -> SpanView {
    style::styled(
        " "@ + name + " ("@ + text::decimal(n) + ") "@,
        style::bold_colored(Color::Cyan),
    )
}

/// The title of a panel: its name and how many entries it has.
fn titled(name: &str, n: usize) -> (r: Span)
    ensures
        r@ == panel_title(name@, n as nat),
{
    let mut title = around(" ", name, " (");
    title.append(decimal_text(n as u64).as_str());
    title.append(") ");
    Span::styled(title.as_str(), Style::bold_colored(Color::Cyan))
}

/// The color of an actor's state.
pub open spec fn state_color(state: Seq<char>, outcome: Option<Seq<char>>) -> Color {
    if state == "running"@ {
        Color::Yellow
    } else if state == "waiting"@ {
        Color::Blue
    } else if state == "terminated"@ {
        match outcome {
            Some(o) => if o == "success"@ {
                Color::Green
            } else if o == "failure"@ || o == "killed"@ || o == "max_turns"@ {
                Color::Red
            } else {
                Color::Gray
            },
            None => Color::Gray,
        }
    } else {
        Color::Gray
    }
}

/// An actor's state, and its outcome where it has one.
pub open spec fn badge(state: Seq<char>, outcome: Option<Seq<char>>) -> Seq<char> {
    match outcome {
        Some(o) => "["@ + state + "/"@ + o + "]"@,
        None => "["@ + state + "]"@,
    }
}

/// The line of an actor.
pub open spec fn line_of_actor(actor: ActorRowView, indent: bool) -> Seq<SpanView> {
    seq![
        style::raw(
            if indent {
                "  ↳ "@
            } else {
                "▸ "@
            },
        ),
        style::styled(actor.name, style::bold()),
        style::raw(" "@),
        style::styled(
            badge(actor.state, actor.outcome),
            style::colored(state_color(actor.state, actor.outcome)),
        ),
        style::raw(" "@),
        style::styled(text::first_chars(actor.id, 8), style::colored(Color::Gray)),
    ]
}

/// The first eight characters of an id.
pub fn short_id(id: &str) -> (r: String)
    ensures
        r@ == text::first_chars(id@, 8),
{
    take_chars(id, 8)
}

/// The color of an actor's state.
fn color_of_state(actor: &ActorRow) -> (r: Color)
    ensures
        r == state_color(actor@.state, actor@.outcome),
{
    let state = actor.state.as_str();
    proof {
        reveal_strlit("running");
        reveal_strlit("waiting");
        reveal_strlit("terminated");
    }
    if same_text(state, "running") {
        Color::Yellow
    } else if same_text(state, "waiting") {
        Color::Blue
    } else if same_text(state, "terminated") {
        match &actor.outcome {
            Some(outcome) => {
                let outcome = outcome.as_str();
                if same_text(outcome, "success") {
                    Color::Green
                } else if same_text(outcome, "failure") || same_text(outcome, "killed")
                    || same_text(outcome, "max_turns") {
                    Color::Red
                } else {
                    Color::Gray
                }
            },
            None => Color::Gray,
        }
    } else {
        Color::Gray
    }
}

/// The line of an actor.
pub fn actor_line(actor: &ActorRow, indent: bool) -> (r: Line)
    ensures
        r@ == line_of_actor(actor@, indent),
{
    let mut badge = around("[", actor.state.as_str(), "");
    proof {
        reveal_strlit("");
    }
    if let Some(outcome) = &actor.outcome {
        badge.append("/");
        badge.append(outcome.as_str());
    }
    badge.append("]");
    assert(badge@ =~= self::badge(actor@.state, actor@.outcome));
    let mut line = Line::of(
        Span::raw(
            if indent {
                "  ↳ "
            } else {
                "▸ "
            },
        ),
    );
    line.push(Span::styled(actor.name.as_str(), Style::bold()));
    line.push(Span::raw(" "));
    line.push(Span::styled(badge.as_str(), Style::colored(color_of_state(actor))));
    line.push(Span::raw(" "));
    line.push(Span::styled(short_id(actor.id.as_str()).as_str(), Style::colored(Color::Gray)));
    assert(line@ =~= line_of_actor(actor@, indent));
    line
}

/// The lines of the actors that the one with this id started.
pub open spec fn child_lines(actors: Seq<ActorRowView>, id: Seq<char>) -> Seq<Seq<SpanView>>
    decreases actors.len(),
{
    if actors.len() == 0 {
        Seq::empty()
    } else {
        let before = child_lines(actors.drop_last(), id);
        if actors.last().spawned_by == id {
            before.push(line_of_actor(actors.last(), true))
        } else {
            before
        }
    }
}

/// The lines of those among `some` that nobody started, each with the actors
/// of `all` that it started under it.
pub open spec fn root_lines(some: Seq<ActorRowView>, all: Seq<ActorRowView>) -> Seq<Seq<SpanView>>
    decreases some.len(),
{
    if some.len() == 0 {
        Seq::empty()
    } else {
        let before = root_lines(some.drop_last(), all);
        let actor = some.last();
        if actor.spawned_by.len() == 0 {
            before.push(line_of_actor(actor, false)) + child_lines(all, actor.id)
        } else {
            before
        }
    }
}

/// Whether nobody started an actor with this id that is there.
pub open spec fn is_root_id(actors: Seq<ActorRowView>, id: Seq<char>) -> bool {
    exists|i: int|
        0 <= i < actors.len() && (#[trigger] actors[i]).spawned_by.len() == 0 && actors[i].id == id
}

/// Whether an actor was started by one that is not a root.
pub open spec fn is_orphan(actor: ActorRowView, all: Seq<ActorRowView>) -> bool {
    actor.spawned_by.len() > 0 && !is_root_id(all, actor.spawned_by)
}

/// The lines of those among `some` that were started by one that is not a root.
pub open spec fn orphan_lines(some: Seq<ActorRowView>, all: Seq<ActorRowView>) -> Seq<
    Seq<SpanView>,
>
    decreases some.len(),
{
    if some.len() == 0 {
        Seq::empty()
    } else {
        let before = orphan_lines(some.drop_last(), all);
        if is_orphan(some.last(), all) {
            before.push(line_of_actor(some.last(), true))
        } else {
            before
        }
    }
}

/// The lines of the actors panel: parents first, their children under them,
/// and then the rest.
pub open spec fn actor_lines(actors: Seq<ActorRowView>) -> Seq<Seq<SpanView>> {
    if actors.len() == 0 {
        seq![seq![style::styled("no actors"@, style::colored(Color::Gray))]]
    } else {
        root_lines(actors, actors) + orphan_lines(actors, actors)
    }
}

/// The actors panel.
pub open spec fn actors_panel(area: Rect, app: AppStateView) -> PanelView {
    PanelView {
        area,
        border: view::border_of(app, Pane::Actors),
        title: seq![panel_title("actors"@, app.actors.len())],
        inner: layout::inside(area),
        lines: actor_lines(app.actors),
    }
}

/// Whether nobody started an actor with this id that is there.
fn has_root(actors: &Vec<ActorRow>, id: &str) -> (r: bool)
    ensures
        r == is_root_id(text::views(actors@), id@),
{
    let ghost all = text::views(actors@);
    let mut i: usize = 0;
    while i < actors.len()
        invariant
            i <= actors.len(),
            all == text::views(actors@),
            forall|k: int|
                0 <= k < i ==> !((#[trigger] all[k]).spawned_by.len() == 0 && all[k].id == id@),
        decreases actors.len() - i,
    {
        assert(all[i as int] == actors@[i as int]@);
        if is_root(&actors[i]) && same_text(actors[i].id.as_str(), id) {
            return true;
        }
        i = i + 1;
    }
    false
}

/// Whether nobody started the actor.
fn is_root(actor: &ActorRow) -> (r: bool)
    ensures
        r == (actor@.spawned_by.len() == 0),
{
    actor.spawned_by.as_str().unicode_len() == 0
}

/// Appends the lines of the actors that the one with this id started.
fn push_children(actors: &Vec<ActorRow>, id: &str, lines: &mut Vec<Line>)
    ensures
        text::views(final(lines)@) == text::views(old(lines)@) + child_lines(
            text::views(actors@),
            id@,
        ),
{
    broadcast use text::lemma_views_push;

    let ghost all = text::views(actors@);
    let ghost before = text::views(lines@);
    let mut i: usize = 0;
    assert(text::views(lines@) =~= before + child_lines(all.take(0), id@));
    while i < actors.len()
        invariant
            i <= actors.len(),
            all == text::views(actors@),
            text::views(lines@) == before + child_lines(all.take(i as int), id@),
        decreases actors.len() - i,
    {
        assert(all.take(i + 1).drop_last() =~= all.take(i as int));
        assert(all.take(i + 1).last() == actors@[i as int]@);
        if same_text(actors[i].spawned_by.as_str(), id) {
            let line = actor_line(&actors[i], true);
            proof {
                text::lemma_views_push(lines@, line);
            }
            lines.push(line);
            assert(text::views(lines@) =~= before + child_lines(all.take(i + 1), id@));
        }
        i = i + 1;
    }
    assert(all.take(all.len() as int) =~= all);
}

/// The actors panel.
pub fn draw_actors(area: Rect, app: &AppState) -> (r: Panel)
    ensures
        r@ == actors_panel(area, app@),
{
    let ghost all = text::views(app.actors@);
    let mut lines: Vec<Line> = Vec::new();
    if app.actors.len() == 0 {
        lines.push(Line::of(Span::styled("no actors", Style::colored(Color::Gray))));
        assert(text::views(lines@) =~= actor_lines(all));
    } else {
        let mut i: usize = 0;
        assert(text::views(lines@) =~= root_lines(all.take(0), all));
        while i < app.actors.len()
            invariant
                i <= app.actors.len(),
                all == text::views(app.actors@),
                text::views(lines@) == root_lines(all.take(i as int), all),
            decreases app.actors.len() - i,
        {
            assert(all.take(i + 1).drop_last() =~= all.take(i as int));
            assert(all.take(i + 1).last() == app.actors@[i as int]@);
            if is_root(&app.actors[i]) {
                let line = actor_line(&app.actors[i], false);
                proof {
                    text::lemma_views_push(lines@, line);
                }
                lines.push(line);
                push_children(&app.actors, app.actors[i].id.as_str(), &mut lines);
            }
            i = i + 1;
        }
        assert(all.take(all.len() as int) =~= all);
        let ghost rooted = root_lines(all, all);
        i = 0;
        assert(text::views(lines@) =~= rooted + orphan_lines(all.take(0), all));
        while i < app.actors.len()
            invariant
                i <= app.actors.len(),
                all == text::views(app.actors@),
                text::views(lines@) == rooted + orphan_lines(all.take(i as int), all),
            decreases app.actors.len() - i,
        {
            assert(all.take(i + 1).drop_last() =~= all.take(i as int));
            assert(all.take(i + 1).last() == app.actors@[i as int]@);
            if !is_root(&app.actors[i]) && !has_root(
                &app.actors,
                app.actors[i].spawned_by.as_str(),
            ) {
                let line = actor_line(&app.actors[i], true);
                proof {
                    text::lemma_views_push(lines@, line);
                }
                lines.push(line);
                assert(text::views(lines@) =~= rooted + orphan_lines(all.take(i + 1), all));
            }
            i = i + 1;
        }
        assert(all.take(all.len() as int) =~= all);
    }
    Panel {
        area,
        border: focus_border(app, Pane::Actors),
        title: Line::of(titled("actors", app.actors.len())),
        inner: inner_area(area),
        lines,
    }
}

/// The line of an activity.
pub open spec fn line_of_activity(row: ActivityUiRowView, selected: bool) -> Seq<SpanView> {
    let insight = row.kind == "insight"@;
    let time = text::first_chars(row.produced_at.skip(11), 5);
    let shown = seq![
        style::styled(
            if insight {
                "✦ "@
            } else {
                "▸ "@
            },
            style::colored(
                if insight {
                    Color::Green
                } else {
                    Color::Blue
                },
            ),
        ),
        style::styled(
            row.title,
            Style {
                bg: if selected {
                    Some(Color::DarkGray)
                } else {
                    None
                },
                bold: !row.seen,
                ..style::plain()
            },
        ),
    ];
    let marked = if row.seen {
        shown
    } else {
        shown.push(style::styled(" ●"@, style::colored(Color::Green)))
    };
    if row.produced_at.len() > 11 {
        marked.push(style::styled(" "@ + time, style::colored(Color::Gray)))
    } else {
        marked
    }
}

/// The line of an activity. Insights and completed tasks have icons of their
/// own; unseen rows are bold and have the green dot.
pub fn activity_line(row: &ActivityUiRow, selected: bool) -> (r: Line)
    ensures
        r@ == line_of_activity(row@, selected),
{
    let insight = same_text(row.kind.as_str(), "insight");
    let mut title_style = Style::plain();
    title_style.bold = !row.seen;
    if selected {
        title_style.bg = Some(Color::DarkGray);
    }
    let mut line = if insight {
        Line::of(Span::styled("✦ ", Style::colored(Color::Green)))
    } else {
        Line::of(Span::styled("▸ ", Style::colored(Color::Blue)))
    };
    line.push(Span::styled(row.title.as_str(), title_style));
    assert(line@ =~= seq![line@[0], line@[1]]);
    if !row.seen {
        line.push(Span::styled(" ●", Style::colored(Color::Green)));
    }
    let n: usize = row.produced_at.as_str().unicode_len();
    if n > 11 {
        let rest = row.produced_at.as_str().substring_char(11, n);
        assert(rest@ =~= row@.produced_at.skip(11));
        let mut time = " ".to_owned();
        time.append(take_chars(rest, 5).as_str());
        line.push(Span::styled(time.as_str(), Style::colored(Color::Gray)));
    }
    line
}

/// The day of a row, as it stands in its date.
pub open spec fn day_of(row: ActivityUiRowView) -> Seq<char> {
    text::first_chars(row.produced_at, 10)
}

/// Whether a row opens a new day.
pub open spec fn opens_day(row: ActivityUiRowView, last_day: Option<Seq<char>>) -> bool {
    last_day != Some(day_of(row)) && day_of(row).len() > 0
}

/// The day that stands above the row after this one.
pub open spec fn day_after(row: ActivityUiRowView, last_day: Option<Seq<char>>) -> Option<
    Seq<char>,
> {
    if opens_day(row, last_day) {
        Some(day_of(row))
    } else {
        last_day
    }
}

/// The line above the first row of a day.
pub open spec fn day_line(day: Seq<char>) -> Seq<SpanView> {
    seq![style::styled("— "@ + day, style::colored(Color::DarkGray))]
}

/// The lines of one row: that of its day where it opens one, and its own.
pub open spec fn row_lines(
    row: ActivityUiRowView,
    last_day: Option<Seq<char>>,
    selected: bool,
) -> Seq<Seq<SpanView>> {
    if opens_day(row, last_day) {
        seq![day_line(day_of(row)), line_of_activity(row, selected)]
    } else {
        seq![line_of_activity(row, selected)]
    }
}

/// The lines of the rows from `start` on. A line with the day stands above
/// the first row of each. `selected` is the highlighted row, if there is one.
pub open spec fn rows_from(
    rows: Seq<ActivityUiRowView>,
    start: int,
    last_day: Option<Seq<char>>,
    selected: Option<nat>,
) -> Seq<Seq<SpanView>>
    decreases rows.len() - start,
{
    if start < 0 || start >= rows.len() {
        Seq::empty()
    } else {
        row_lines(rows[start], last_day, selected == Some(start as nat)) + rows_from(
            rows,
            start + 1,
            day_after(rows[start], last_day),
            selected,
        )
    }
}

/// The lines of the rows from `start` on, without lines for the days.
pub open spec fn bare_rows_from(
    rows: Seq<ActivityUiRowView>,
    start: int,
    selected: Option<nat>,
) -> Seq<Seq<SpanView>> {
    Seq::new(
        if start < rows.len() {
            (rows.len() - start) as nat
        } else {
            0
        },
        |i: int| line_of_activity(rows[start + i], selected == Some((start + i) as nat)),
    )
}

/// How many day lines are drawn for the rows from `from` to `to`, where
/// `last_day` stands above them.
pub open spec fn day_lines(
    rows: Seq<ActivityUiRowView>,
    from: int,
    to: int,
    last_day: Option<Seq<char>>,
) -> nat
    decreases to - from + 1,
{
    if from > to {
        0
    } else {
        (if opens_day(rows[from], last_day) {
            1nat
        } else {
            0
        }) + day_lines(rows, from + 1, to, day_after(rows[from], last_day))
    }
}

/// Whether the line of the selected row is within a list of this height that
/// begins with row `from`: the rows and day lines above it leave room for it.
pub open spec fn fits(
    rows: Seq<ActivityUiRowView>,
    from: int,
    selected: int,
    height: nat,
) -> bool {
    (selected - from) + day_lines(rows, from, selected, None) < height
}

/// Whether `s` is the first row from which the selected one fits.
pub open spec fn is_first_shown(
    rows: Seq<ActivityUiRowView>,
    selected: int,
    height: nat,
    s: int,
) -> bool {
    &&& 0 <= s <= selected
    &&& fits(rows, s, selected, height)
    &&& forall|t: int| 0 <= t < s ==> !#[trigger] fits(rows, t, selected, height)
}

/// The first row that is drawn in a list of this height: the first one from
/// which the selected row still fits. A list of one line has room for the
/// selected row alone. Where no row is selected the list is scrolled as if all
/// rows were without a date.
pub open spec fn viewport_start(
    rows: Seq<ActivityUiRowView>,
    selected: nat,
    height: nat,
) -> nat {
    if height == 0 {
        0
    } else if selected >= rows.len() {
        if selected < height {
            0
        } else {
            (selected - (height - 1)) as nat
        }
    } else if height == 1 {
        selected
    } else {
        (choose|s: int| is_first_shown(rows, selected as int, height, s)) as nat
    }
}

/// The day of the first row with a date from `from` to `to`.
spec fn first_day(rows: Seq<ActivityUiRowView>, from: int, to: int) -> Option<Seq<char>>
    decreases to - from + 1,
{
    if from > to {
        None
    } else if day_of(rows[from]).len() > 0 {
        Some(day_of(rows[from]))
    } else {
        first_day(rows, from + 1, to)
    }
}

/// A day that already stands above the rows saves one line where it is also
/// the first day among them.
proof fn lemma_day_saved(rows: Seq<ActivityUiRowView>, from: int, to: int, day: Seq<char>)
    ensures
        day_lines(rows, from, to, None) == day_lines(rows, from, to, Some(day)) + if first_day(
            rows,
            from,
            to,
        ) == Some(day) {
            1nat
        } else {
            0
        },
    decreases to - from + 1,
{
    if from <= to && day_of(rows[from]).len() == 0 {
        lemma_day_saved(rows, from + 1, to, day);
    }
}

/// Beginning one row earlier takes one line more, or two where that row stands
/// under a day of its own.
proof fn lemma_one_row_earlier(rows: Seq<ActivityUiRowView>, from: int, to: int)
    requires
        from <= to,
    ensures
        day_lines(rows, from, to, None) == day_lines(rows, from + 1, to, None) + if day_of(
            rows[from],
        ).len() > 0 && first_day(rows, from + 1, to) != Some(day_of(rows[from])) {
            1nat
        } else {
            0
        },
{
    lemma_day_saved(rows, from + 1, to, day_of(rows[from]));
}

proof fn lemma_earlier_does_not_fit(
    rows: Seq<ActivityUiRowView>,
    selected: int,
    height: nat,
    t: int,
    s: int,
)
    requires
        0 <= t <= s <= selected,
        !fits(rows, s, selected, height),
    ensures
        !fits(rows, t, selected, height),
    decreases s - t,
{
    if t < s {
        lemma_one_row_earlier(rows, s - 1, selected);
        lemma_earlier_does_not_fit(rows, selected, height, t, s - 1);
    }
}

/// The first row that is drawn.
fn first_row_shown(rows: &Vec<ActivityUiRow>, selected: usize, height: u16) -> (r: usize)
    ensures
        r == viewport_start(text::views(rows@), selected as nat, height as nat),
{
    let ghost all = text::views(rows@);
    let visible: usize = height as usize;
    if visible == 0 {
        return 0;
    }
    if selected >= rows.len() {
        return selected.saturating_sub(visible - 1);
    }
    if visible == 1 {
        return selected;
    }
    let mut first = take_chars(rows[selected].produced_at.as_str(), 10);
    let mut taken: usize = if first.as_str().unicode_len() > 0 {
        1
    } else {
        0
    };
    let mut start: usize = selected;
    proof {
        reveal_with_fuel(day_lines, 2);
        reveal_with_fuel(first_day, 2);
        assert(all[selected as int] == rows@[selected as int]@);
    }
    while start > 0
        invariant_except_break
            start <= selected < rows.len(),
            all == text::views(rows@),
            1 < visible == height,
            taken == (selected - start) + day_lines(all, start as int, selected as int, None),
            taken < visible,
            first@.len() > 0 ==> first_day(all, start as int, selected as int) == Some(first@),
            first@.len() == 0 ==> first_day(all, start as int, selected as int) is None,
        ensures
            is_first_shown(all, selected as int, height as nat, start as int),
        decreases start,
    {
        let day = take_chars(rows[start - 1].produced_at.as_str(), 10);
        let dated = day.as_str().unicode_len() > 0;
        let more: usize = if dated && !same_text(day.as_str(), first.as_str()) {
            2
        } else {
            1
        };
        proof {
            assert(all[start - 1] == rows@[start - 1]@);
            lemma_one_row_earlier(all, start - 1, selected as int);
        }
        if taken + more >= visible {
            proof {
                assert(!fits(all, start - 1, selected as int, height as nat));
                assert forall|t: int| 0 <= t < start implies !#[trigger] fits(
                    all,
                    t,
                    selected as int,
                    height as nat,
                ) by {
                    lemma_earlier_does_not_fit(
                        all,
                        selected as int,
                        height as nat,
                        t,
                        start - 1,
                    );
                }
            }
            break;
        }
        taken = taken + more;
        start = start - 1;
        if dated {
            first = day;
        }
    }
    proof {
        let s = choose|s: int| is_first_shown(all, selected as int, height as nat, s);
        assert(is_first_shown(all, selected as int, height as nat, s));
        if s < start {
            assert(!fits(all, s, selected as int, height as nat));
        } else if s > start {
            assert(!fits(all, start as int, selected as int, height as nat));
        }
    }
    start
}

/// The row that is highlighted: the selected one, while the pane has focus.
pub open spec fn highlighted(app: AppStateView) -> Option<nat> {
    if app.focused_pane == Pane::Activity {
        Some(app.activity_selected)
    } else {
        None
    }
}

/// The lines of the activity panel in a list of this height. A list of one
/// line has no room for the days.
pub open spec fn activity_lines(app: AppStateView, height: nat) -> Seq<Seq<SpanView>> {
    let start = viewport_start(app.activity, app.activity_selected, height) as int;
    if app.activity.len() == 0 {
        seq![
            seq![
                style::styled("no background activity yet"@, style::colored(Color::Gray)),
            ],
        ]
    } else if height == 1 {
        bare_rows_from(app.activity, start, highlighted(app))
    } else {
        rows_from(app.activity, start, None, highlighted(app))
    }
}

/// The line of row `k` stands below the lines of the rows before it and of the
/// days up to its own, highlighted where it is the one that is selected.
pub proof fn lemma_rows_keep_their_place(
    rows: Seq<ActivityUiRowView>,
    start: int,
    k: int,
    last_day: Option<Seq<char>>,
    selected: Option<nat>,
)
    requires
        0 <= start <= k < rows.len(),
    ensures
        ({
            let at = (k - start) + day_lines(rows, start, k, last_day);
            let lines = rows_from(rows, start, last_day, selected);
            &&& 0 <= at < lines.len()
            &&& lines[at] == line_of_activity(rows[k], selected == Some(k as nat))
        }),
    decreases k - start,
{
    let own = row_lines(rows[start], last_day, selected == Some(start as nat));
    let after = day_after(rows[start], last_day);
    let rest = rows_from(rows, start + 1, after, selected);
    let lines = rows_from(rows, start, last_day, selected);
    assert(lines == own + rest);
    if k > start {
        lemma_rows_keep_their_place(rows, start + 1, k, after, selected);
        let at = (k - (start + 1)) + day_lines(rows, start + 1, k, after);
        assert(lines[own.len() + at] == rest[at]);
    } else {
        assert(day_lines(rows, start + 1, k, after) == 0);
    }
}

/// There is a first row from which the selected one fits, in a list with room
/// for a row and its day.
proof fn lemma_first_shown(
    rows: Seq<ActivityUiRowView>,
    selected: int,
    height: nat,
    from: int,
) -> (s: int)
    requires
        0 <= from <= selected,
        fits(rows, from, selected, height),
    ensures
        is_first_shown(rows, selected, height, s),
    decreases from,
{
    if from > 0 && fits(rows, from - 1, selected, height) {
        lemma_first_shown(rows, selected, height, from - 1)
    } else {
        assert forall|t: int| 0 <= t < from implies !#[trigger] fits(rows, t, selected, height) by {
            lemma_earlier_does_not_fit(rows, selected, height, t, from - 1);
        }
        from
    }
}

/// The first row that is drawn is never below the selected one, and the
/// selected one fits from there.
pub proof fn lemma_viewport(rows: Seq<ActivityUiRowView>, selected: nat, height: nat)
    requires
        selected < rows.len(),
        height > 0,
    ensures
        viewport_start(rows, selected, height) <= selected,
        height > 1 ==> is_first_shown(
            rows,
            selected as int,
            height,
            viewport_start(rows, selected, height) as int,
        ),
{
    if height > 1 {
        reveal_with_fuel(day_lines, 2);
        assert(fits(rows, selected as int, selected as int, height));
        let s = lemma_first_shown(rows, selected as int, height, selected as int);
        assert(is_first_shown(rows, selected as int, height, s));
    }
}

/// The line of the selected row is among the lines that the list has room for.
pub proof fn lemma_selection_is_visible(app: AppStateView, height: nat)
    requires
        height > 0,
        app.activity_selected < app.activity.len(),
    ensures
        exists|at: int|
            0 <= at < height && at < activity_lines(app, height).len()
                && #[trigger] activity_lines(app, height)[at] == line_of_activity(
                app.activity[app.activity_selected as int],
                app.focused_pane == Pane::Activity,
            ),
{
    let lines = activity_lines(app, height);
    let start = viewport_start(app.activity, app.activity_selected, height) as int;
    let k = app.activity_selected as int;
    lemma_viewport(app.activity, app.activity_selected, height);
    if height == 1 {
        assert(lines[0] == line_of_activity(
            app.activity[k],
            app.focused_pane == Pane::Activity,
        ));
    } else {
        lemma_rows_keep_their_place(app.activity, start, k, None, highlighted(app));
        let at = (k - start) + day_lines(app.activity, start, k, None);
        assert(lines[at] == line_of_activity(
            app.activity[k],
            app.focused_pane == Pane::Activity,
        ));
    }
}

/// The title of the activity panel: with the number of unseen insights, while
/// there are any.
pub open spec fn activity_title(app: AppStateView) -> Seq<SpanView> {
    let title = seq![panel_title("activity"@, app.activity.len())];
    if app.unseen_insights > 0 {
        title.push(
            style::styled(
                "●"@ + text::decimal(app.unseen_insights as nat) + " "@,
                style::bold_colored(Color::Green),
            ),
        )
    } else {
        title
    }
}

/// The activity panel.
pub open spec fn activity_panel(area: Rect, app: AppStateView) -> PanelView {
    PanelView {
        area,
        border: view::border_of(app, Pane::Activity),
        title: activity_title(app),
        inner: layout::inside(area),
        lines: activity_lines(app, layout::inside(area).height as nat),
    }
}

/// The lines of the rows from `start` on, with a line above the first row of
/// each day.
fn lines_by_day(app: &AppState, start: usize) -> (r: Vec<Line>)
    ensures
        text::views(r@) == rows_from(app@.activity, start as int, None, highlighted(app@)),
{
    let focused = app.focused_pane == Pane::Activity;
    let ghost rows = app@.activity;
    let ghost chosen = highlighted(app@);
    let ghost whole = rows_from(rows, start as int, None, chosen);
    let mut lines: Vec<Line> = Vec::new();
    let mut last_day: Option<String> = None;
    let mut i: usize = start;
    assert(text::views(lines@) + whole =~= whole);
    while i < app.activity.len()
        invariant
            rows == app@.activity,
            chosen == highlighted(app@),
            focused == (app.focused_pane == Pane::Activity),
            whole == text::views(lines@) + rows_from(
                rows,
                i as int,
                text::opt_view(last_day),
                chosen,
            ),
        decreases app.activity.len() - i,
    {
        let row = &app.activity[i];
        let ghost rest = rows_from(
            rows,
            i + 1,
            day_after(rows[i as int], text::opt_view(last_day)),
            chosen,
        );
        let ghost before = text::views(lines@);
        let ghost day_before = text::opt_view(last_day);
        assert(rows[i as int] == row@);
        let day = take_chars(row.produced_at.as_str(), 10);
        let same_day = match &last_day {
            Some(last) => same_text(last.as_str(), day.as_str()),
            None => false,
        };
        let line = activity_line(row, focused && i == app.activity_selected);
        assert(line@ == line_of_activity(row@, chosen == Some(i as nat)));
        if !same_day && day.as_str().unicode_len() > 0 {
            let header = Line::of(
                Span::styled(
                    around("— ", day.as_str(), "").as_str(),
                    Style::colored(Color::DarkGray),
                ),
            );
            proof {
                reveal_strlit("");
                assert("— "@ + day@ + ""@ =~= "— "@ + day@);
                text::lemma_views_push(lines@, header);
            }
            lines.push(header);
            last_day = Some(day);
        }
        proof {
            text::lemma_views_push(lines@, line);
        }
        lines.push(line);
        proof {
            assert(text::views(lines@) =~= before + row_lines(
                row@,
                day_before,
                chosen == Some(i as nat),
            ));
            assert(text::opt_view(last_day) == day_after(row@, day_before));
            assert(before + (row_lines(row@, day_before, chosen == Some(i as nat)) + rest)
                =~= text::views(lines@) + rest);
        }
        i = i + 1;
    }
    assert(text::views(lines@) =~= whole);
    lines
}

/// The lines of the rows from `start` on, without lines for the days.
fn lines_without_days(app: &AppState, start: usize) -> (r: Vec<Line>)
    ensures
        text::views(r@) == bare_rows_from(app@.activity, start as int, highlighted(app@)),
{
    let focused = app.focused_pane == Pane::Activity;
    let ghost whole = bare_rows_from(app@.activity, start as int, highlighted(app@));
    let mut lines: Vec<Line> = Vec::new();
    let mut i: usize = start;
    while i < app.activity.len()
        invariant
            start <= i,
            start < app.activity.len() ==> i <= app.activity.len(),
            start >= app.activity.len() ==> i == start,
            focused == (app.focused_pane == Pane::Activity),
            whole == bare_rows_from(app@.activity, start as int, highlighted(app@)),
            lines.len() == i - start,
            forall|k: int| 0 <= k < lines.len() ==> (#[trigger] lines@[k])@ == whole[k],
        decreases app.activity.len() - i,
    {
        assert(app@.activity[i as int] == app.activity@[i as int]@);
        lines.push(activity_line(&app.activity[i], focused && i == app.activity_selected));
        i = i + 1;
    }
    assert(text::views(lines@) =~= whole);
    lines
}

/// The activity panel. Of the lines, the selected row is among the first ones,
/// as many as the panel has rows inside its border.
pub fn draw_activity(area: Rect, app: &AppState) -> (r: Panel)
    ensures
        r@ == activity_panel(area, app@),
        app@.activity_selected < app@.activity.len() && layout::inside(area).height > 0
            ==> exists|at: int|
            0 <= at < layout::inside(area).height && at < r@.lines.len()
                && #[trigger] r@.lines[at] == line_of_activity(
                app@.activity[app@.activity_selected as int],
                app@.focused_pane == Pane::Activity,
            ),
{
    let mut title = Line::of(titled("activity", app.activity.len()));
    if app.unseen_insights > 0 {
        let count = decimal_text(app.unseen_insights as u64);
        title.push(
            Span::styled(
                around("●", count.as_str(), " ").as_str(),
                Style::bold_colored(Color::Green),
            ),
        );
    }
    let inner = inner_area(area);
    let lines = if app.activity.len() == 0 {
        let mut lines: Vec<Line> = Vec::new();
        lines.push(
            Line::of(Span::styled("no background activity yet", Style::colored(Color::Gray))),
        );
        assert(text::views(lines@) =~= activity_lines(app@, inner.height as nat));
        lines
    } else {
        let start: usize = first_row_shown(&app.activity, app.activity_selected, inner.height);
        if inner.height == 1 {
            lines_without_days(app, start)
        } else {
            lines_by_day(app, start)
        }
    };
    let panel = Panel { area, border: focus_border(app, Pane::Activity), title, inner, lines };
    proof {
        if app@.activity_selected < app@.activity.len() && inner.height > 0 {
            lemma_selection_is_visible(app@, inner.height as nat);
            assert(panel@.lines == activity_lines(app@, inner.height as nat));
        }
    }
    panel
}

/// The due date as it is shown: the first ten bytes of it.
pub open spec fn due_shown(todo: TodoRowView) -> Option<Seq<char>> {
    match todo.due_date {
        Some(due) => text::first_bytes(due, 10),
        None => Some(Seq::empty()),
    }
}

/// The line of a todo.
pub open spec fn line_of_todo(todo: TodoRowView) -> Seq<SpanView> {
    let completed = todo.status == "completed"@;
    let cancelled = todo.status == "cancelled"@;
    seq![
        style::styled(
            if completed {
                "▣"@
            } else {
                "▢"@
            },
            if completed {
                style::colored(Color::Green)
            } else if cancelled {
                Style { crossed_out: true, ..style::colored(Color::Gray) }
            } else {
                style::colored(Color::Yellow)
            },
        ),
        style::raw(" "@),
        style::styled(
            text::right_aligned(todo.priority, 4) + " "@,
            if todo.priority == "high"@ {
                style::bold_colored(Color::Red)
            } else {
                style::colored(Color::Gray)
            },
        ),
        style::raw(todo.title),
        style::styled(
            if todo.due_date is Some {
                " @"@ + due_shown(todo)->0
            } else {
                Seq::empty()
            },
            style::colored(Color::Gray),
        ),
    ]
}

impl TodoRow {
    /// Whether the due date can be shown: its first ten bytes do not end
    /// within a character.
    pub fn has_plain_due_date(&self) -> (r: bool)
        ensures
            r == (due_shown(self@) is Some),
    {
        match &self.due_date {
            Some(due) => take_bytes(due.as_str(), 10).is_some(),
            None => true,
        }
    }
}

/// The line of a todo.
pub fn todo_line(todo: &TodoRow) -> (r: Line)
    requires
        due_shown(todo@) is Some,
    ensures
        r@ == line_of_todo(todo@),
{
    let status = todo.status.as_str();
    proof {
        reveal_strlit("completed");
        reveal_strlit("cancelled");
        reveal_strlit("");
        assert("completed"@[1] != "cancelled"@[1]);
    }
    let mut line = if same_text(status, "completed") {
        Line::of(Span::styled("▣", Style::colored(Color::Green)))
    } else if same_text(status, "cancelled") {
        let mut marker = Style::colored(Color::Gray);
        marker.crossed_out = true;
        Line::of(Span::styled("▢", marker))
    } else {
        Line::of(Span::styled("▢", Style::colored(Color::Yellow)))
    };
    line.push(Span::raw(" "));
    let mut priority = align_right(todo.priority.as_str(), 4);
    priority.append(" ");
    let priority_style = if same_text(todo.priority.as_str(), "high") {
        Style::bold_colored(Color::Red)
    } else {
        Style::colored(Color::Gray)
    };
    line.push(Span::styled(priority.as_str(), priority_style));
    line.push(Span::raw(todo.title.as_str()));
    let mut shown = String::new();
    if let Some(due) = &todo.due_date {
        if let Some(first) = take_bytes(due.as_str(), 10) {
            shown.append(" @");
            shown.append(first.as_str());
        }
    }
    line.push(Span::styled(shown.as_str(), Style::colored(Color::Gray)));
    assert(shown@ =~= line_of_todo(todo@)[4].text);
    assert(line@ =~= line_of_todo(todo@));
    line
}

/// The lines of the todos panel.
pub open spec fn todo_lines(todos: Seq<TodoRowView>) -> Seq<Seq<SpanView>> {
    if todos.len() == 0 {
        seq![seq![style::styled("no todos"@, style::colored(Color::Gray))]]
    } else {
        Seq::new(todos.len(), |i: int| line_of_todo(todos[i]))
    }
}

/// Whether every due date can be shown.
pub open spec fn plain_due_dates(todos: Seq<TodoRowView>) -> bool {
    forall|i: int| 0 <= i < todos.len() ==> due_shown(#[trigger] todos[i]) is Some
}

/// The todos panel.
pub open spec fn todos_panel(area: Rect, app: AppStateView) -> PanelView {
    PanelView {
        area,
        border: view::border_of(app, Pane::Todos),
        title: seq![panel_title("todos"@, app.todos.len())],
        inner: layout::inside(area),
        lines: todo_lines(app.todos),
    }
}

/// The todos panel.
pub fn draw_todos(area: Rect, app: &AppState) -> (r: Panel)
    requires
        plain_due_dates(app@.todos),
    ensures
        r@ == todos_panel(area, app@),
{
    let ghost todos = app@.todos;
    let mut lines: Vec<Line> = Vec::new();
    if app.todos.len() == 0 {
        lines.push(Line::of(Span::styled("no todos", Style::colored(Color::Gray))));
    } else {
        let mut i: usize = 0;
        while i < app.todos.len()
            invariant
                i <= app.todos.len(),
                todos == app@.todos,
                plain_due_dates(todos),
                lines.len() == i,
                forall|k: int| 0 <= k < i ==> (#[trigger] lines@[k])@ == line_of_todo(todos[k]),
            decreases app.todos.len() - i,
        {
            assert(todos[i as int] == app.todos@[i as int]@);
            lines.push(todo_line(&app.todos[i]));
            i = i + 1;
        }
    }
    assert(text::views(lines@) =~= todo_lines(todos));
    Panel {
        area,
        border: focus_border(app, Pane::Todos),
        title: Line::of(titled("todos", app.todos.len())),
        inner: inner_area(area),
        lines,
    }
}

/// The sidebar.
#[derive(Debug)]
pub struct Sidebar {
    pub actors: Panel,
    pub activity: Panel,
    pub todos: Panel,
}

/// What a [`Sidebar`] holds.
pub struct SidebarView {
    pub actors: PanelView,
    pub activity: PanelView,
    pub todos: PanelView,
}

impl View for Sidebar {
    type V = SidebarView;

    open spec fn view(&self) -> SidebarView {
        SidebarView { actors: self.actors@, activity: self.activity@, todos: self.todos@ }
    }
}

/// The sidebar, for the areas of its panels.
pub open spec fn sidebar_in(areas: Seq<Rect>, app: AppStateView) -> SidebarView {
    SidebarView {
        actors: actors_panel(areas[0], app),
        activity: activity_panel(areas[1], app),
        todos: todos_panel(areas[2], app),
    }
}

/// The sidebar, for the areas of its panels.
pub fn draw_panels(areas: &Vec<Rect>, app: &AppState) -> (r: Sidebar)
    requires
        areas@.len() == 3,
        plain_due_dates(app@.todos),
    ensures
        r@ == sidebar_in(areas@, app@),
{
    Sidebar {
        actors: draw_actors(areas[0], app),
        activity: draw_activity(areas[1], app),
        todos: draw_todos(areas[2], app),
    }
}

/// The sidebar in an area: its panels in the parts that a vertical split by
/// [`sidebar_constraints`] gives, in order.
pub fn draw(area: Rect, app: &AppState) -> (r: Sidebar)
    requires
        plain_due_dates(app@.todos),
    ensures
        exists|areas: Seq<Rect>|
            #![trigger sidebar_in(areas, app@)]
            layout::is_split(areas, area, Direction::Vertical, layout::sidebar_parts()) && r@
                == sidebar_in(areas, app@),
{
    let areas = split_area(area, Direction::Vertical, &sidebar_constraints());
    let sidebar = draw_panels(&areas, app);
    assert(sidebar@ == sidebar_in(areas@, app@));
    sidebar
}

} // verus!
