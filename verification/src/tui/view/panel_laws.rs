//! What the panels of the sidebar show, line by line.
use vstd::prelude::*;

use crate::text;
use crate::tui::state::ActivityUiRowView;
use crate::tui::state::ActorRowView;
use crate::tui::state::AppStateView;
use crate::tui::state::Pane;
use crate::tui::state::TodoRowView;
use crate::tui::view;
use crate::tui::view::layout::Rect;
use crate::tui::view::sidebar;
use crate::tui::view::style;
use crate::tui::view::style::Color;

verus! {

/// The border of the pane with focus is bold and cyan, all others are gray.
pub proof fn law_borders_tell_the_focus(app: AppStateView, pane: Pane)
    ensures
        ({
            let border = view::border_of(app, pane);
            &&& border.fg == Some(
                if app.focused_pane == pane {
                    Color::Cyan
                } else {
                    Color::Gray
                },
            )
            &&& border.bold <==> app.focused_pane == pane
            &&& border.bg is None && !border.crossed_out
        }),
{
}

/// Each panel has its own area and border, a title with its name and the number
/// of its entries, and its lines inside the border.
pub proof fn law_panels_are_labelled(areas: Seq<Rect>, app: AppStateView)
    requires
        areas.len() == 3,
    ensures
        ({
            let side = sidebar::sidebar_in(areas, app);
            &&& side.actors.area == areas[0] && side.activity.area == areas[1] && side.todos.area
                == areas[2]
            &&& side.actors.border == view::border_of(app, Pane::Actors)
            &&& side.activity.border == view::border_of(app, Pane::Activity)
            &&& side.todos.border == view::border_of(app, Pane::Todos)
            &&& side.actors.inner == view::layout::inside(areas[0])
            &&& side.activity.inner == view::layout::inside(areas[1])
            &&& side.todos.inner == view::layout::inside(areas[2])
            &&& side.actors.title.len() == 1
            &&& side.actors.title[0].text == " actors ("@ + text::decimal(app.actors.len())
                + ") "@
            &&& side.activity.title[0].text == " activity ("@ + text::decimal(
                app.activity.len(),
            ) + ") "@
            &&& side.todos.title.len() == 1
            &&& side.todos.title[0].text == " todos ("@ + text::decimal(app.todos.len()) + ") "@
            &&& side.actors.title[0].style == style::bold_colored(Color::Cyan)
            &&& side.activity.title[0].style == side.actors.title[0].style
            &&& side.todos.title[0].style == side.actors.title[0].style
            &&& side.actors.lines == sidebar::actor_lines(app.actors)
            &&& side.todos.lines == sidebar::todo_lines(app.todos)
            &&& side.activity.lines == sidebar::activity_lines(
                app,
                side.activity.inner.height as nat,
            )
        }),
{
    reveal_strlit(" ");
    reveal_strlit(" (");
    reveal_strlit("actors");
    reveal_strlit("activity");
    reveal_strlit("todos");
    reveal_strlit(" actors (");
    reveal_strlit(" activity (");
    reveal_strlit(" todos (");
    assert(" "@ + "actors"@ + " ("@ =~= " actors ("@);
    assert(" "@ + "activity"@ + " ("@ =~= " activity ("@);
    assert(" "@ + "todos"@ + " ("@ =~= " todos ("@);
}

/// The title of the activity panel ends in a green dot and the number of unseen
/// insights, while there are any.
pub proof fn law_dot_counts_the_unseen(app: AppStateView)
    ensures
        app.unseen_insights > 0 ==> sidebar::activity_title(app).len() == 2
            && sidebar::activity_title(app)[1].text == "●"@ + text::decimal(
            app.unseen_insights as nat,
        ) + " "@ && sidebar::activity_title(app)[1].style == style::bold_colored(Color::Green),
        app.unseen_insights <= 0 ==> sidebar::activity_title(app).len() == 1,
{
}

/// The line of an actor holds its name, its state with the outcome where there
/// is one, and the start of its id; a child is indented under an arrow.
pub proof fn law_actor_line_tells_the_actor(actor: ActorRowView, indent: bool)
    ensures
        ({
            let line = sidebar::line_of_actor(actor, indent);
            let state = line[3].text;
            &&& line.len() == 6
            &&& indent ==> line[0] == style::raw("  ↳ "@)
            &&& !indent ==> line[0] == style::raw("▸ "@)
            &&& line[1].text == actor.name && line[1].style == style::bold()
            &&& line[2] == style::raw(" "@) && line[4] == style::raw(" "@)
            &&& actor.outcome is None ==> state == "["@ + actor.state + "]"@
            &&& actor.outcome matches Some(outcome) ==> state == "["@ + actor.state + "/"@ + outcome
                + "]"@
            &&& actor.id.len() <= 8 ==> line[5].text == actor.id
            &&& actor.id.len() > 8 ==> line[5].text == actor.id.take(8)
            &&& line[5].style == style::colored(Color::Gray)
        }),
{
}

/// The color of an actor's state tells how it is doing: yellow while it runs,
/// blue while it waits, and once it has ended green for success, red for
/// failure, a kill or too many turns. Anything else is gray.
pub proof fn law_state_is_told_by_color(actor: ActorRowView, indent: bool)
    ensures
        ({
            let look = sidebar::line_of_actor(actor, indent)[3].style;
            let color = look.fg;
            let ended = actor.state == "terminated"@;
            &&& actor.state == "running"@ ==> color == Some(Color::Yellow)
            &&& actor.state == "waiting"@ ==> color == Some(Color::Blue)
            &&& ended && actor.outcome == Some("success"@) ==> color == Some(Color::Green)
            &&& ended && actor.outcome == Some("failure"@) ==> color == Some(Color::Red)
            &&& ended && actor.outcome == Some("killed"@) ==> color == Some(Color::Red)
            &&& ended && actor.outcome == Some("max_turns"@) ==> color == Some(Color::Red)
            &&& ended && actor.outcome is None ==> color == Some(Color::Gray)
            &&& ended && actor.outcome != Some("success"@) && actor.outcome != Some("failure"@)
                && actor.outcome != Some("killed"@) && actor.outcome != Some("max_turns"@) ==> color
                == Some(Color::Gray)
            &&& !ended && actor.state != "running"@ && actor.state != "waiting"@ ==> color == Some(
                Color::Gray,
            )
            &&& look == style::colored(color->0)
        }),
{
    reveal_strlit("running");
    reveal_strlit("waiting");
    reveal_strlit("terminated");
    reveal_strlit("success");
    reveal_strlit("failure");
    reveal_strlit("killed");
    reveal_strlit("max_turns");
    assert("running"@[0] == 'r' && "waiting"@[0] == 'w' && "terminated"@[0] == 't');
    assert("success"@[0] == 's' && "failure"@[0] == 'f');
    assert("killed"@[0] == 'k' && "max_turns"@[0] == 'm');
}

proof fn lemma_children_are_filtered(actors: Seq<ActorRowView>, id: Seq<char>)
    ensures
        ({
            let children = actors.filter(|a: ActorRowView| a.spawned_by == id);
            let lines = sidebar::child_lines(actors, id);
            &&& lines.len() == children.len()
            &&& forall|k: int|
                0 <= k < children.len() ==> #[trigger] lines[k] == sidebar::line_of_actor(
                    children[k],
                    true,
                )
        }),
    decreases actors.len(),
{
    reveal(Seq::filter);
    if actors.len() > 0 {
        lemma_children_are_filtered(actors.drop_last(), id);
    }
}

proof fn lemma_roots_of_a_start(some: Seq<ActorRowView>, all: Seq<ActorRowView>, i: int)
    requires
        0 <= i <= some.len(),
    ensures
        sidebar::root_lines(some.take(i), all).is_prefix_of(sidebar::root_lines(some, all)),
    decreases some.len(),
{
    let start = sidebar::root_lines(some.take(i), all);
    let lines = sidebar::root_lines(some, all);
    if i < some.len() {
        lemma_roots_of_a_start(some.drop_last(), all, i);
        assert(some.drop_last().take(i) =~= some.take(i));
        let before = sidebar::root_lines(some.drop_last(), all);
        assert(start =~= before.subrange(0, start.len() as int));
        assert forall|k: int| 0 <= k < start.len() implies start[k] == lines[k] by {
            assert(start[k] == before[k]);
        }
        assert(start =~= lines.subrange(0, start.len() as int));
    } else {
        assert(some.take(i) =~= some);
        assert(lines =~= lines.subrange(0, lines.len() as int));
    }
}

/// Parents stand in their order, each with its children right under it in
/// theirs: behind everything that belongs to the actors before it comes the
/// parent's line, and then that of each actor that it started.
pub proof fn law_children_stand_under_their_parent(actors: Seq<ActorRowView>, i: int)
    requires
        0 <= i < actors.len(),
        actors[i].spawned_by.len() == 0,
    ensures
        ({
            let lines = sidebar::actor_lines(actors);
            let at = sidebar::root_lines(actors.take(i), actors).len() as int;
            let children = actors.filter(|a: ActorRowView| a.spawned_by == actors[i].id);
            &&& at + children.len() < lines.len()
            &&& lines[at] == sidebar::line_of_actor(actors[i], false)
            &&& forall|k: int|
                0 <= k < children.len() ==> #[trigger] lines[at + 1 + k] == sidebar::line_of_actor(
                    children[k],
                    true,
                )
            &&& sidebar::root_lines(actors.take(i + 1), actors).len() == at + 1 + children.len()
        }),
{
    let lines = sidebar::actor_lines(actors);
    let rooted = sidebar::root_lines(actors, actors);
    let before = sidebar::root_lines(actors.take(i), actors);
    let start = sidebar::root_lines(actors.take(i + 1), actors);
    let own = sidebar::child_lines(actors, actors[i].id);
    let children = actors.filter(|a: ActorRowView| a.spawned_by == actors[i].id);
    lemma_children_are_filtered(actors, actors[i].id);
    lemma_roots_of_a_start(actors, actors, i + 1);
    assert(actors.take(i + 1).drop_last() =~= actors.take(i));
    assert(actors.take(i + 1).last() == actors[i]);
    assert(start == before.push(sidebar::line_of_actor(actors[i], false)) + own);
    let at = before.len() as int;
    assert forall|k: int| 0 <= k < start.len() implies start[k] == lines[k] by {
        assert(start[k] == rooted.subrange(0, start.len() as int)[k]);
        assert(lines[k] == rooted[k]);
    }
    assert(start[at] == sidebar::line_of_actor(actors[i], false));
    assert forall|k: int| 0 <= k < children.len() implies #[trigger] lines[at + 1 + k]
        == sidebar::line_of_actor(children[k], true) by {
        assert(start[at + 1 + k] == own[k]);
    }
}

/// An actor that somebody started takes no place among the parents.
pub proof fn law_children_are_no_parents(actors: Seq<ActorRowView>, i: int)
    requires
        0 <= i < actors.len(),
        actors[i].spawned_by.len() > 0,
    ensures
        sidebar::root_lines(actors.take(i + 1), actors) == sidebar::root_lines(
            actors.take(i),
            actors,
        ),
{
    assert(actors.take(i + 1).drop_last() =~= actors.take(i));
    assert(actors.take(i + 1).last() == actors[i]);
}

/// Actors whose parent is not there, or is itself a child, stand at the end and
/// in their order, indented. Where there are no actors at all, the panel says
/// so.
pub proof fn law_orphans_stand_at_the_end(actors: Seq<ActorRowView>)
    ensures
        actors.len() > 0 ==> ({
            let lines = sidebar::actor_lines(actors);
            let orphans = actors.filter(
                |a: ActorRowView|
                    a.spawned_by.len() > 0 && !exists|r: int|
                        0 <= r < actors.len() && (#[trigger] actors[r]).spawned_by.len() == 0
                            && actors[r].id == a.spawned_by,
            );
            let rooted = sidebar::root_lines(actors, actors).len() as int;
            &&& lines.len() == rooted + orphans.len()
            &&& forall|k: int|
                0 <= k < orphans.len() ==> #[trigger] lines[rooted + k] == sidebar::line_of_actor(
                    orphans[k],
                    true,
                )
        }),
        actors.len() == 0 ==> sidebar::actor_lines(actors).len() == 1 && sidebar::actor_lines(
            actors,
        )[0].len() == 1 && sidebar::actor_lines(actors)[0][0].text == "no actors"@
            && sidebar::actor_lines(actors)[0][0].style == style::colored(Color::Gray),
{
    lemma_orphans_are_filtered(actors, actors);
}

proof fn lemma_orphans_are_filtered(some: Seq<ActorRowView>, all: Seq<ActorRowView>)
    ensures
        ({
            let orphans = some.filter(
                |a: ActorRowView|
                    a.spawned_by.len() > 0 && !exists|r: int|
                        0 <= r < all.len() && (#[trigger] all[r]).spawned_by.len() == 0
                            && all[r].id == a.spawned_by,
            );
            let lines = sidebar::orphan_lines(some, all);
            &&& lines.len() == orphans.len()
            &&& forall|k: int|
                0 <= k < orphans.len() ==> #[trigger] lines[k] == sidebar::line_of_actor(
                    orphans[k],
                    true,
                )
        }),
    decreases some.len(),
{
    reveal(Seq::filter);
    if some.len() > 0 {
        lemma_orphans_are_filtered(some.drop_last(), all);
    }
}

/// The line of an activity shows its kind by icon and color, its title, a green
/// dot while it is unseen, and the time of the day where the date has one. It is
/// bold while unseen, and has a background where it is selected.
pub proof fn law_activity_line_tells_the_row(row: ActivityUiRowView, selected: bool)
    ensures
        ({
            let line = sidebar::line_of_activity(row, selected);
            let insight = row.kind == "insight"@;
            let timed = row.produced_at.len() > 11;
            &&& line.len() == 2 + (if row.seen {
                0int
            } else {
                1
            }) + (if timed {
                1int
            } else {
                0
            })
            &&& insight ==> line[0].text == "✦ "@ && line[0].style == style::colored(Color::Green)
            &&& !insight ==> line[0].text == "▸ "@ && line[0].style == style::colored(Color::Blue)
            &&& line[1].text == row.title
            &&& line[1].style.bold <==> !row.seen
            &&& line[1].style.bg == if selected {
                Some(Color::DarkGray)
            } else {
                None
            }
            &&& line[1].style.fg is None && !line[1].style.crossed_out
            &&& !row.seen ==> line[2].text == " ●"@ && line[2].style == style::colored(
                Color::Green,
            )
            &&& row.produced_at.len() >= 16 ==> line.last().text == " "@ + row.produced_at.subrange(
                11,
                16,
            )
            &&& timed ==> line.last().style == style::colored(Color::Gray)
            &&& 11 < row.produced_at.len() < 16 ==> line.last().text == " "@
                + row.produced_at.skip(11)
        }),
{
    if row.produced_at.len() >= 16 {
        assert(row.produced_at.skip(11).take(5) =~= row.produced_at.subrange(11, 16));
    }
}

/// The day of a row is the first ten characters of its date. A row opens a day
/// exactly where it has a date and another day, or none, stands above it; the
/// day then stands above the rows that follow. The line of a day is a dash and
/// the day.
pub proof fn law_days_open_once(row: ActivityUiRowView, above: Option<Seq<char>>)
    ensures
        ({
            let day = sidebar::day_of(row);
            let opens = sidebar::opens_day(row, above);
            &&& row.produced_at.len() >= 10 ==> day == row.produced_at.take(10)
            &&& row.produced_at.len() < 10 ==> day == row.produced_at
            &&& opens <==> row.produced_at.len() > 0 && above != Some(day)
            &&& opens ==> sidebar::day_after(row, above) == Some(day)
            &&& !opens ==> sidebar::day_after(row, above) == above
            &&& sidebar::day_line(day).len() == 1
            &&& sidebar::day_line(day)[0].text == "— "@ + day
            &&& sidebar::day_line(day)[0].style == style::colored(Color::DarkGray)
        }),
{
}

/// The day that stands above the row behind `to`: that of the last row with a
/// date, or what stood above all of them.
pub open spec fn day_above(
    rows: Seq<ActivityUiRowView>,
    from: int,
    to: int,
    above: Option<Seq<char>>,
) -> Option<Seq<char>>
    decreases to - from + 1,
{
    if to < from {
        above
    } else if rows[to].produced_at.len() > 0 {
        Some(sidebar::day_of(rows[to]))
    } else {
        day_above(rows, from, to - 1, above)
    }
}

proof fn lemma_day_lines_from_the_end(
    rows: Seq<ActivityUiRowView>,
    from: int,
    to: int,
    above: Option<Seq<char>>,
)
    requires
        from <= to,
    ensures
        sidebar::day_lines(rows, from, to, above) == sidebar::day_lines(
            rows,
            from,
            to - 1,
            above,
        ) + if rows[to].produced_at.len() > 0 && day_above(rows, from, to - 1, above) != Some(
            sidebar::day_of(rows[to]),
        ) {
            1nat
        } else {
            0
        },
    decreases to - from,
{
    let next = sidebar::day_after(rows[from], above);
    if from < to {
        lemma_day_lines_from_the_end(rows, from + 1, to, next);
        lemma_day_above_shift(rows, from, to - 1, above);
    } else {
        assert(sidebar::day_lines(rows, from + 1, to, next) == 0);
        assert(sidebar::day_lines(rows, from, to - 1, above) == 0);
    }
}

proof fn lemma_day_above_shift(
    rows: Seq<ActivityUiRowView>,
    from: int,
    to: int,
    above: Option<Seq<char>>,
)
    requires
        from <= to,
    ensures
        day_above(rows, from, to, above) == day_above(
            rows,
            from + 1,
            to,
            sidebar::day_after(rows[from], above),
        ),
    decreases to - from,
{
    if from < to {
        if rows[to].produced_at.len() == 0 {
            lemma_day_above_shift(rows, from, to - 1, above);
        }
    } else {
        assert(day_above(rows, from, to - 1, above) == above);
        assert(day_above(rows, from + 1, to, sidebar::day_after(rows[from], above))
            == sidebar::day_after(rows[from], above));
    }
}

/// One more row adds one line for itself, and one above it where its day is not
/// the one that stands there.
pub proof fn law_one_more_row(
    rows: Seq<ActivityUiRowView>,
    from: int,
    to: int,
    above: Option<Seq<char>>,
)
    requires
        from <= to,
    ensures
        sidebar::day_lines(rows, from, to, above) == sidebar::day_lines(
            rows,
            from,
            to - 1,
            above,
        ) + if rows[to].produced_at.len() > 0 && day_above(rows, from, to - 1, above) != Some(
            sidebar::day_of(rows[to]),
        ) {
            1nat
        } else {
            0
        },
        sidebar::day_lines(rows, from, from - 1, above) == 0,
{
    lemma_day_lines_from_the_end(rows, from, to, above);
}

proof fn lemma_day_line_above(
    rows: Seq<ActivityUiRowView>,
    start: int,
    k: int,
    above: Option<Seq<char>>,
    selected: Option<nat>,
)
    requires
        0 <= start <= k < rows.len(),
        rows[k].produced_at.len() > 0,
        day_above(rows, start, k - 1, above) != Some(sidebar::day_of(rows[k])),
    ensures
        ({
            let at = (k - start) + sidebar::day_lines(rows, start, k, above);
            let lines = sidebar::rows_from(rows, start, above, selected);
            &&& 0 < at < lines.len()
            &&& lines[at - 1] == sidebar::day_line(sidebar::day_of(rows[k]))
        }),
    decreases k - start,
{
    let next = sidebar::day_after(rows[start], above);
    let own = sidebar::row_lines(rows[start], above, selected == Some(start as nat));
    let rest = sidebar::rows_from(rows, start + 1, next, selected);
    let lines = sidebar::rows_from(rows, start, above, selected);
    assert(lines == own + rest);
    if k > start {
        lemma_day_above_shift(rows, start, k - 1, above);
        lemma_day_line_above(rows, start + 1, k, next, selected);
        let at = (k - (start + 1)) + sidebar::day_lines(rows, start + 1, k, next);
        assert(lines[own.len() + at - 1] == rest[at - 1]);
    } else {
        assert(sidebar::day_lines(rows, start + 1, k, next) == 0);
        assert(day_above(rows, start, k - 1, above) == above);
    }
}

/// Right above the first row of a day stands that day.
pub proof fn law_day_stands_above_its_rows(
    rows: Seq<ActivityUiRowView>,
    start: int,
    k: int,
    above: Option<Seq<char>>,
    selected: Option<nat>,
)
    requires
        0 <= start <= k < rows.len(),
        rows[k].produced_at.len() > 0,
        day_above(rows, start, k - 1, above) != Some(sidebar::day_of(rows[k])),
    ensures
        ({
            let at = (k - start) + sidebar::day_lines(rows, start, k, above);
            let lines = sidebar::rows_from(rows, start, above, selected);
            &&& 0 < at < lines.len()
            &&& lines[at - 1] == sidebar::day_line(sidebar::day_of(rows[k]))
            &&& lines[at] == sidebar::line_of_activity(rows[k], selected == Some(k as nat))
        }),
{
    lemma_day_line_above(rows, start, k, above, selected);
    sidebar::lemma_rows_keep_their_place(rows, start, k, above, selected);
}

proof fn lemma_list_length(
    rows: Seq<ActivityUiRowView>,
    start: int,
    above: Option<Seq<char>>,
    selected: Option<nat>,
)
    requires
        0 <= start <= rows.len(),
    ensures
        sidebar::rows_from(rows, start, above, selected).len() == (rows.len() - start)
            + sidebar::day_lines(rows, start, rows.len() - 1, above),
    decreases rows.len() - start,
{
    if start < rows.len() {
        lemma_list_length(rows, start + 1, sidebar::day_after(rows[start], above), selected);
    }
}

/// The activity panel lists every row from the first that is shown to the last,
/// in order and each once, with a line for each day. A list of one line leaves
/// the days out, and a panel without rows says that there are none. The selected
/// row is highlighted while the panel has focus, and no other row ever is.
pub proof fn law_activity_is_listed(app: AppStateView, height: nat, k: int)
    requires
        app.activity.len() > 0,
        sidebar::viewport_start(app.activity, app.activity_selected, height) <= k
            < app.activity.len(),
    ensures
        ({
            let start = sidebar::viewport_start(
                app.activity,
                app.activity_selected,
                height,
            ) as int;
            let lines = sidebar::activity_lines(app, height);
            let days = if height == 1 {
                0nat
            } else {
                sidebar::day_lines(app.activity, start, k, None)
            };
            let all_days = if height == 1 {
                0nat
            } else {
                sidebar::day_lines(app.activity, start, app.activity.len() - 1, None)
            };
            &&& lines.len() == app.activity.len() - start + all_days
            &&& (k - start) + days < lines.len()
            &&& lines[(k - start) + days] == sidebar::line_of_activity(
                app.activity[k],
                app.focused_pane == Pane::Activity && app.activity_selected == k,
            )
        }),
{
    let start = sidebar::viewport_start(app.activity, app.activity_selected, height) as int;
    let chosen = sidebar::highlighted(app);
    if height != 1 {
        sidebar::lemma_rows_keep_their_place(app.activity, start, k, None, chosen);
        lemma_list_length(app.activity, start, None, chosen);
    }
}

/// A panel without activity says so.
pub proof fn law_no_activity_is_told(app: AppStateView, height: nat)
    requires
        app.activity.len() == 0,
    ensures
        ({
            let lines = sidebar::activity_lines(app, height);
            lines.len() == 1 && lines[0].len() == 1 && lines[0][0].text
                == "no background activity yet"@ && lines[0][0].style == style::colored(
                Color::Gray,
            )
        }),
{
}

/// The list begins with the first row from which the selected one is still
/// within the height, rows and days together: one row earlier it would be cut
/// off. A list of one line begins with the selected row, and where none is
/// selected the list is scrolled by rows alone.
pub proof fn law_list_scrolls_as_little_as_needed(
    rows: Seq<ActivityUiRowView>,
    selected: nat,
    height: nat,
)
    ensures
        ({
            let start = sidebar::viewport_start(rows, selected, height) as int;
            &&& height == 0 ==> start == 0
            &&& height > 0 && selected >= rows.len() ==> start == if selected >= height {
                selected - height + 1
            } else {
                0
            }
            &&& height == 1 && selected < rows.len() ==> start == selected
            &&& height > 1 && selected < rows.len() ==> {
                &&& 0 <= start <= selected
                &&& (selected - start) + sidebar::day_lines(rows, start, selected as int, None)
                    < height
                &&& forall|t: int|
                    0 <= t < start ==> (selected - t) + #[trigger] sidebar::day_lines(
                        rows,
                        t,
                        selected as int,
                        None,
                    ) >= height
            }
        }),
{
    if height > 0 && selected < rows.len() {
        sidebar::lemma_viewport(rows, selected, height);
        if height > 1 {
            let start = sidebar::viewport_start(rows, selected, height) as int;
            assert forall|t: int| 0 <= t < start implies (selected - t)
                + #[trigger] sidebar::day_lines(rows, t, selected as int, None) >= height by {
                assert(!sidebar::fits(rows, t, selected as int, height));
            }
        }
    }
}

/// The line of a todo shows whether it is done, its priority, its title, and
/// the day it is due. What is done has a green, full box; what was cancelled a
/// gray one, struck out; anything else a yellow one. A high priority is red.
pub proof fn law_todo_line_tells_the_todo(todo: TodoRowView)
    requires
        sidebar::due_shown(todo) is Some,
    ensures
        ({
            let line = sidebar::line_of_todo(todo);
            let box_style = line[0].style;
            &&& line.len() == 5
            &&& todo.status == "completed"@ ==> line[0].text == "▣"@ && box_style.fg == Some(
                Color::Green,
            ) && !box_style.crossed_out
            &&& todo.status == "cancelled"@ ==> line[0].text == "▢"@ && box_style.fg == Some(
                Color::Gray,
            ) && box_style.crossed_out
            &&& todo.status != "completed"@ && todo.status != "cancelled"@ ==> line[0].text == "▢"@
                && box_style.fg == Some(Color::Yellow) && !box_style.crossed_out
            &&& !box_style.bold && box_style.bg is None
            &&& line[1] == style::raw(" "@)
            &&& todo.priority.len() >= 4 ==> line[2].text == todo.priority + " "@
            &&& todo.priority.len() < 4 ==> line[2].text.len() == 5 && line[2].text.subrange(
                4 - todo.priority.len(),
                4,
            ) == todo.priority && line[2].text[4] == ' '
            &&& todo.priority.len() < 4 ==> forall|i: int|
                0 <= i < 4 - todo.priority.len() ==> #[trigger] line[2].text[i] == ' '
            &&& todo.priority == "high"@ ==> line[2].style == style::bold_colored(Color::Red)
            &&& todo.priority != "high"@ ==> line[2].style == style::colored(Color::Gray)
            &&& line[3] == style::raw(todo.title)
            &&& todo.due_date is None ==> line[4].text.len() == 0
            &&& todo.due_date matches Some(due) ==> text::first_bytes(due, 10) matches Some(day)
                && line[4].text == " @"@ + day
            &&& line[4].style == style::colored(Color::Gray)
        }),
{
    reveal_strlit("completed");
    reveal_strlit("cancelled");
    reveal_strlit(" ");
    assert("completed"@[1] != "cancelled"@[1]);
    let line = sidebar::line_of_todo(todo);
    if todo.priority.len() < 4 {
        assert(line[2].text.subrange(4 - todo.priority.len(), 4) =~= todo.priority);
    }
}

/// Every todo has its line, in its place; a panel without todos says so.
pub proof fn law_every_todo_is_listed(todos: Seq<TodoRowView>)
    ensures
        todos.len() > 0 ==> sidebar::todo_lines(todos).len() == todos.len(),
        forall|i: int|
            0 <= i < todos.len() ==> #[trigger] sidebar::todo_lines(todos)[i]
                == sidebar::line_of_todo(todos[i]),
        todos.len() == 0 ==> sidebar::todo_lines(todos).len() == 1 && sidebar::todo_lines(
            todos,
        )[0].len() == 1 && sidebar::todo_lines(todos)[0][0].text == "no todos"@
            && sidebar::todo_lines(todos)[0][0].style == style::colored(Color::Gray),
{
}

/// A due date can be shown exactly where there is none, or where its first ten
/// bytes end with a character.
pub proof fn law_due_dates_that_can_be_shown(todo: TodoRowView, todos: Seq<TodoRowView>)
    ensures
        sidebar::due_shown(todo) is Some <==> (todo.due_date matches Some(due)
            ==> text::first_bytes(due, 10) is Some),
        sidebar::plain_due_dates(todos) <==> forall|i: int|
            0 <= i < todos.len() ==> sidebar::due_shown(#[trigger] todos[i]) is Some,
{
}

/// A list that is scrolled past its last row shows nothing.
pub proof fn law_nothing_past_the_end(app: AppStateView, height: nat)
    requires
        app.activity.len() > 0,
        sidebar::viewport_start(app.activity, app.activity_selected, height)
            >= app.activity.len(),
    ensures
        sidebar::activity_lines(app, height).len() == 0,
{
}

} // verus!
