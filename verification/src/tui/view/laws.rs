//! What holds of every frame.
use vstd::prelude::*;

use crate::tui::state::ActivityUiRowView;
use crate::tui::state::ActorRowView;
use crate::tui::state::AppStateView;
use crate::tui::state::Pane;
use crate::tui::view;
use crate::tui::view::FramePlanView;
use crate::tui::view::layout;
use crate::tui::view::layout::Direction;
use crate::tui::view::layout::Rect;
use crate::tui::view::sidebar;
use crate::tui::view::style;
use crate::tui::view::style::Color;
use crate::tui::view::style::SpanView;

verus! {

/// Exactly the pane with focus has the border that stands out.
pub proof fn law_focus_stands_out(app: AppStateView, pane: Pane)
    ensures
        view::border_of(app, pane) == style::bold_colored(Color::Cyan) <==> pane
            == app.focused_pane,
{
}

/// The activity title has the dot exactly while there are unseen insights.
pub proof fn law_dot_is_hidden_at_zero(app: AppStateView)
    ensures
        sidebar::activity_title(app).len() == if app.unseen_insights > 0 {
            2int
        } else {
            1
        },
{
}

proof fn lemma_child_is_listed(actors: Seq<ActorRowView>, i: int)
    requires
        0 <= i < actors.len(),
    ensures
        sidebar::child_lines(actors, actors[i].spawned_by).contains(
            sidebar::line_of_actor(actors[i], true),
        ),
    decreases actors.len(),
{
    let id = actors[i].spawned_by;
    let line = sidebar::line_of_actor(actors[i], true);
    let lines = sidebar::child_lines(actors, id);
    let before = sidebar::child_lines(actors.drop_last(), id);
    if i == actors.len() - 1 {
        assert(lines[before.len() as int] == line);
    } else {
        assert(actors.drop_last()[i] == actors[i]);
        lemma_child_is_listed(actors.drop_last(), i);
        let k = choose|k: int| 0 <= k < before.len() && before[k] == line;
        assert(lines[k] == line);
    }
}

proof fn lemma_root_is_listed(some: Seq<ActorRowView>, all: Seq<ActorRowView>, i: int)
    requires
        0 <= i < some.len(),
        some[i].spawned_by.len() == 0,
    ensures
        sidebar::root_lines(some, all).contains(sidebar::line_of_actor(some[i], false)),
        forall|line: Seq<SpanView>| #[trigger]
            sidebar::child_lines(all, some[i].id).contains(line) ==> sidebar::root_lines(
                some,
                all,
            ).contains(line),
    decreases some.len(),
{
    let lines = sidebar::root_lines(some, all);
    let before = sidebar::root_lines(some.drop_last(), all);
    let children = sidebar::child_lines(all, some[i].id);
    let own = sidebar::line_of_actor(some[i], false);
    if i == some.len() - 1 {
        assert(lines[before.len() as int] == own);
        assert forall|line: Seq<SpanView>| #[trigger]
            children.contains(line) implies lines.contains(line) by {
            let k = choose|k: int| 0 <= k < children.len() && children[k] == line;
            assert(lines[before.len() + 1 + k] == line);
        }
    } else {
        assert(some.drop_last()[i] == some[i]);
        lemma_root_is_listed(some.drop_last(), all, i);
        assert forall|line: Seq<SpanView>| before.contains(line) implies lines.contains(line) by {
            let k = choose|k: int| 0 <= k < before.len() && before[k] == line;
            assert(lines[k] == line);
        }
        assert(before.contains(own));
        assert forall|line: Seq<SpanView>| #[trigger]
            children.contains(line) implies lines.contains(line) by {
            assert(before.contains(line));
        }
    }
}

proof fn lemma_orphan_is_listed(some: Seq<ActorRowView>, all: Seq<ActorRowView>, i: int)
    requires
        0 <= i < some.len(),
        sidebar::is_orphan(some[i], all),
    ensures
        sidebar::orphan_lines(some, all).contains(sidebar::line_of_actor(some[i], true)),
    decreases some.len(),
{
    let line = sidebar::line_of_actor(some[i], true);
    let lines = sidebar::orphan_lines(some, all);
    let before = sidebar::orphan_lines(some.drop_last(), all);
    if i == some.len() - 1 {
        assert(lines[before.len() as int] == line);
    } else {
        assert(some.drop_last()[i] == some[i]);
        lemma_orphan_is_listed(some.drop_last(), all, i);
        let k = choose|k: int| 0 <= k < before.len() && before[k] == line;
        assert(lines[k] == line);
    }
}

/// Every actor is listed: as a parent where nobody started it, and indented
/// where someone did, whether that one is there or not.
pub proof fn law_every_actor_is_listed(actors: Seq<ActorRowView>, i: int)
    requires
        0 <= i < actors.len(),
    ensures
        sidebar::actor_lines(actors).contains(
            sidebar::line_of_actor(actors[i], actors[i].spawned_by.len() > 0),
        ),
{
    let rooted = sidebar::root_lines(actors, actors);
    let orphans = sidebar::orphan_lines(actors, actors);
    let lines = sidebar::actor_lines(actors);
    let line = sidebar::line_of_actor(actors[i], actors[i].spawned_by.len() > 0);
    assert(lines == rooted + orphans);
    if actors[i].spawned_by.len() == 0 {
        lemma_root_is_listed(actors, actors, i);
        assert(rooted.contains(line));
    } else if sidebar::is_root_id(actors, actors[i].spawned_by) {
        let r = choose|r: int|
            0 <= r < actors.len() && (#[trigger] actors[r]).spawned_by.len() == 0 && actors[r].id
                == actors[i].spawned_by;
        lemma_child_is_listed(actors, i);
        lemma_root_is_listed(actors, actors, r);
        assert(rooted.contains(line));
    } else {
        lemma_orphan_is_listed(actors, actors, i);
        assert(orphans.contains(line));
    }
    if rooted.contains(line) {
        let k = choose|k: int| 0 <= k < rooted.len() && rooted[k] == line;
        assert(lines[k] == line);
    } else {
        let k = choose|k: int| 0 <= k < orphans.len() && orphans[k] == line;
        assert(lines[rooted.len() + k] == line);
    }
}

/// How many of `xs` the roots among `some` started, counted root by root.
spec fn child_total(some: Seq<ActorRowView>, xs: Seq<ActorRowView>) -> nat
    decreases some.len(),
{
    if some.len() == 0 {
        0
    } else {
        child_total(some.drop_last(), xs) + if some.last().spawned_by.len() == 0 {
            sidebar::child_lines(xs, some.last().id).len()
        } else {
            0
        }
    }
}

/// How many roots among `some` have this id.
spec fn claimed(some: Seq<ActorRowView>, id: Seq<char>) -> nat
    decreases some.len(),
{
    if some.len() == 0 {
        0
    } else {
        claimed(some.drop_last(), id) + if some.last().spawned_by.len() == 0 && some.last().id
            == id {
            1nat
        } else {
            0
        }
    }
}

/// How many of `xs` the roots among `some` started, counted child by child.
spec fn claimed_total(xs: Seq<ActorRowView>, some: Seq<ActorRowView>) -> nat
    decreases xs.len(),
{
    if xs.len() == 0 {
        0
    } else {
        claimed_total(xs.drop_last(), some) + claimed(some, xs.last().spawned_by)
    }
}

/// How many of `xs` nobody started.
spec fn root_total(xs: Seq<ActorRowView>) -> nat
    decreases xs.len(),
{
    if xs.len() == 0 {
        0
    } else {
        root_total(xs.drop_last()) + if xs.last().spawned_by.len() == 0 {
            1nat
        } else {
            0
        }
    }
}

proof fn lemma_no_children(some: Seq<ActorRowView>)
    ensures
        child_total(some, Seq::empty()) == 0,
    decreases some.len(),
{
    if some.len() > 0 {
        lemma_no_children(some.drop_last());
    }
}

proof fn lemma_one_more_child(some: Seq<ActorRowView>, xs: Seq<ActorRowView>)
    requires
        xs.len() > 0,
    ensures
        child_total(some, xs) == child_total(some, xs.drop_last()) + claimed(
            some,
            xs.last().spawned_by,
        ),
    decreases some.len(),
{
    if some.len() > 0 {
        lemma_one_more_child(some.drop_last(), xs);
    }
}

proof fn lemma_counted_both_ways(some: Seq<ActorRowView>, xs: Seq<ActorRowView>)
    ensures
        child_total(some, xs) == claimed_total(xs, some),
    decreases xs.len(),
{
    if xs.len() == 0 {
        assert(xs =~= Seq::empty());
        lemma_no_children(some);
    } else {
        lemma_counted_both_ways(some, xs.drop_last());
        lemma_one_more_child(some, xs);
    }
}

/// Whether no two roots share an id, and none has an empty one.
pub open spec fn roots_apart(actors: Seq<ActorRowView>) -> bool {
    &&& forall|i: int, j: int|
        0 <= i < j < actors.len() && (#[trigger] actors[i]).spawned_by.len() == 0 && (
        #[trigger] actors[j]).spawned_by.len() == 0 ==> actors[i].id != actors[j].id
    &&& forall|i: int|
        0 <= i < actors.len() && (#[trigger] actors[i]).spawned_by.len() == 0 ==> actors[i].id.len()
            > 0
}

proof fn lemma_claimed_once(some: Seq<ActorRowView>, id: Seq<char>)
    requires
        roots_apart(some),
    ensures
        claimed(some, id) == if sidebar::is_root_id(some, id) {
            1nat
        } else {
            0
        },
    decreases some.len(),
{
    if some.len() > 0 {
        let rest = some.drop_last();
        assert(roots_apart(rest)) by {
            assert forall|i: int, j: int|
                0 <= i < j < rest.len() && (#[trigger] rest[i]).spawned_by.len() == 0 && (
                #[trigger] rest[j]).spawned_by.len() == 0 implies rest[i].id != rest[j].id by {
                assert(some[i].id != some[j].id);
            }
            assert forall|i: int|
                0 <= i < rest.len() && (#[trigger] rest[i]).spawned_by.len()
                    == 0 implies rest[i].id.len() > 0 by {
                assert(some[i].id.len() > 0);
            }
        }
        lemma_claimed_once(rest, id);
        let n = some.len() - 1;
        if sidebar::is_root_id(some, id) {
            let i = choose|i: int|
                0 <= i < some.len() && (#[trigger] some[i]).spawned_by.len() == 0 && some[i].id
                    == id;
            if i < n {
                assert(rest[i].spawned_by.len() == 0 && rest[i].id == id);
                assert(some[n].spawned_by.len() == 0 ==> some[i].id != some[n].id);
            }
        }
        if sidebar::is_root_id(rest, id) {
            let i = choose|i: int|
                0 <= i < rest.len() && (#[trigger] rest[i]).spawned_by.len() == 0 && rest[i].id
                    == id;
            assert(some[i].spawned_by.len() == 0 && some[i].id == id);
            assert(some[n].spawned_by.len() == 0 ==> some[i].id != some[n].id);
        }
        if some[n].spawned_by.len() == 0 && some[n].id == id {
            assert(sidebar::is_root_id(some, id));
        }
    }
}

proof fn lemma_everyone_counts(xs: Seq<ActorRowView>, all: Seq<ActorRowView>)
    requires
        roots_apart(all),
    ensures
        root_total(xs) + claimed_total(xs, all) + sidebar::orphan_lines(xs, all).len()
            == xs.len(),
    decreases xs.len(),
{
    if xs.len() > 0 {
        lemma_everyone_counts(xs.drop_last(), all);
        let x = xs.last();
        lemma_claimed_once(all, x.spawned_by);
        if x.spawned_by.len() == 0 && sidebar::is_root_id(all, x.spawned_by) {
            let i = choose|i: int|
                0 <= i < all.len() && (#[trigger] all[i]).spawned_by.len() == 0 && all[i].id
                    == x.spawned_by;
            assert(all[i].id.len() > 0);
        }
    }
}

proof fn lemma_root_line_count(some: Seq<ActorRowView>, all: Seq<ActorRowView>)
    ensures
        sidebar::root_lines(some, all).len() == root_total(some) + child_total(some, all),
    decreases some.len(),
{
    if some.len() > 0 {
        lemma_root_line_count(some.drop_last(), all);
    }
}

/// No actor is listed twice: as long as parents can be told apart by their
/// ids, there are as many lines as actors.
pub proof fn law_actors_are_listed_once(actors: Seq<ActorRowView>)
    requires
        actors.len() > 0,
        roots_apart(actors),
    ensures
        sidebar::actor_lines(actors).len() == actors.len(),
{
    lemma_root_line_count(actors, actors);
    lemma_counted_both_ways(actors, actors);
    lemma_everyone_counts(actors, actors);
}

/// Two rows of one day that follow each other stand under one day line.
pub proof fn law_a_day_is_named_once(
    row: ActivityUiRowView,
    next: ActivityUiRowView,
    last_day: Option<Seq<char>>,
)
    requires
        sidebar::day_of(row) == sidebar::day_of(next),
    ensures
        !sidebar::opens_day(next, sidebar::day_after(row, last_day)),
{
}

/// The list begins at or above the selected row, less than a page away, and no
/// later than it has to: from the row before, the selected one would not fit.
pub proof fn law_selection_is_within_a_page(
    rows: Seq<ActivityUiRowView>,
    selected: nat,
    height: nat,
)
    requires
        height > 0,
        selected < rows.len(),
    ensures
        ({
            let start = sidebar::viewport_start(rows, selected, height) as int;
            &&& start <= selected
            &&& selected - start < height
            &&& start > 0 ==> !sidebar::fits(rows, start - 1, selected as int, height)
        }),
{
    sidebar::lemma_viewport(rows, selected, height);
}

/// The line of row `k` stands below the lines of the rows before it and of the
/// days up to its own, highlighted where it is the one that is selected.
pub proof fn law_rows_keep_their_place(
    rows: Seq<ActivityUiRowView>,
    start: int,
    k: int,
    last_day: Option<Seq<char>>,
    selected: Option<nat>,
)
    requires
        0 <= start <= k < rows.len(),
    ensures
        ({
            let at = (k - start) + sidebar::day_lines(rows, start, k, last_day);
            let lines = sidebar::rows_from(rows, start, last_day, selected);
            &&& 0 <= at < lines.len()
            &&& lines[at] == sidebar::line_of_activity(rows[k], selected == Some(k as nat))
        }),
{
    sidebar::lemma_rows_keep_their_place(rows, start, k, last_day, selected);
}

/// The selection stays visible: whatever is selected and whatever the days, its
/// line is among those that the list has room for.
pub proof fn law_selection_is_visible(app: AppStateView, height: nat)
    requires
        height > 0,
        app.activity_selected < app.activity.len(),
    ensures
        exists|at: int|
            0 <= at < height && at < sidebar::activity_lines(app, height).len()
                && #[trigger] sidebar::activity_lines(app, height)[at] == sidebar::line_of_activity(
                app.activity[app.activity_selected as int],
                app.focused_pane == Pane::Activity,
            ),
{
    sidebar::lemma_selection_is_visible(app, height);
}

/// Whatever is drawn in a frame is drawn within it: the transcript, the editor
/// and the footer, and the panels of the sidebar.
pub proof fn law_frame_stays_on_the_screen(
    frame: FramePlanView,
    size: Rect,
    app: AppStateView,
    editor_lines: Seq<Seq<char>>,
)
    requires
        view::is_frame(frame, size, app, editor_lines),
    ensures
        layout::lies_in(frame.transcript, size),
        layout::lies_in(frame.editor, size),
        layout::lies_in(frame.footer, size),
        frame.sidebar matches Some(side) ==> layout::lies_in(side.actors.area, size)
            && layout::lies_in(side.activity.area, size) && layout::lies_in(
            side.todos.area,
            size,
        ),
{
    let parts = layout::frame_parts(layout::editor_height_of(editor_lines, size.width));
    let (outer, main, panels) = choose|outer: Seq<Rect>, main: Seq<Rect>, panels: Seq<Rect>|
        #![trigger view::frame_of(size, app, outer, main, panels)]
        {
            &&& layout::is_split(outer, size, Direction::Vertical, parts)
            &&& app.sidebar_visible ==> layout::is_split(
                main,
                outer[0],
                Direction::Horizontal,
                layout::main_parts(),
            ) && layout::is_split(panels, main[1], Direction::Vertical, layout::sidebar_parts())
            &&& frame == view::frame_of(size, app, outer, main, panels)
        };
    assert(layout::lies_in(outer[0], size));
    assert(layout::lies_in(outer[1], size));
    assert(layout::lies_in(outer[2], size));
    if app.sidebar_visible {
        assert(layout::lies_in(main[0], outer[0]));
        assert(layout::lies_in(main[1], outer[0]));
        assert(layout::lies_in(panels[0], main[1]));
        assert(layout::lies_in(panels[1], main[1]));
        assert(layout::lies_in(panels[2], main[1]));
    }
}

} // verus!
