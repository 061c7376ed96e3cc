//! Where the parts of a frame go.
use vstd::prelude::*;

use crate::tui::state::AppStateView;
use crate::tui::view;
use crate::tui::view::FramePlanView;
use crate::tui::view::layout;
use crate::tui::view::layout::Constraint;
use crate::tui::view::layout::Direction;
use crate::tui::view::layout::Rect;
use crate::tui::view::sidebar;

verus! {

/// A border takes one cell on each side, as far as there are cells.
pub proof fn law_border_takes_one_cell(area: Rect)
    ensures
        ({
            let inner = layout::inside(area);
            &&& area.x < u16::MAX ==> inner.x == area.x + 1
            &&& area.y < u16::MAX ==> inner.y == area.y + 1
            &&& area.x == u16::MAX ==> inner.x == u16::MAX
            &&& area.y == u16::MAX ==> inner.y == u16::MAX
            &&& area.width >= 2 ==> inner.width == area.width - 2
            &&& area.height >= 2 ==> inner.height == area.height - 2
            &&& area.width < 2 ==> inner.width == 0
            &&& area.height < 2 ==> inner.height == 0
        }),
{
}

/// The popup leaves four columns and three rows free on each side, but is never
/// narrower than 30 columns or lower than 8 rows, nor wider than 80 or higher
/// than 20.
pub proof fn law_popup_has_its_size(area: Rect)
    ensures
        ({
            let p = layout::popup_in(area);
            &&& 30 <= p.width <= 80
            &&& 8 <= p.height <= 20
            &&& 38 <= area.width <= 88 ==> p.width == area.width - 8
            &&& 14 <= area.height <= 26 ==> p.height == area.height - 6
            &&& area.width < 38 ==> p.width == 30
            &&& area.width > 88 ==> p.width == 80
            &&& area.height < 14 ==> p.height == 8
            &&& area.height > 26 ==> p.height == 20
            &&& area.width <= 30 ==> p.x == 0
            &&& area.height <= 8 ==> p.y == 0
        }),
{
}

/// A line takes as many rows as it needs at this width and no more, and an
/// empty line takes one.
pub proof fn law_lines_take_the_rows_they_need(len: nat, width: nat)
    requires
        width > 0,
    ensures
        ({
            let rows = layout::rows_of(len, width);
            &&& rows >= 1
            &&& rows * width >= len
            &&& len > 0 ==> (rows - 1) * width < len
            &&& len == 0 ==> rows == 1
        }),
{
    let w = width as int;
    if len > 0 {
        let rows = (len + w - 1) / w;
        vstd::arithmetic::div_mod::lemma_fundamental_div_mod(len + w - 1, w);
        vstd::arithmetic::mul::lemma_mul_is_commutative(w, rows);
        assert((rows - 1) * w == rows * w - w) by (nonlinear_arith);
        assert(rows >= 1) by (nonlinear_arith)
            requires
                rows * w >= len,
                len > 0,
                w > 0,
        ;
    }
}

/// The rows of several lines are those of each of them together, as long as
/// they can be counted in 16 bits.
pub proof fn law_rows_add_up(lines: Seq<Seq<char>>, more: Seq<char>, width: nat)
    ensures
        layout::rows_of_all(Seq::empty(), width) == 0,
        ({
            let before = layout::rows_of_all(lines, width);
            let after = layout::rows_of_all(lines.push(more), width);
            let own = layout::rows_of(more.len(), width);
            &&& before + own <= u16::MAX ==> after == before + own
            &&& after <= u16::MAX
            &&& own <= u16::MAX && before + own > u16::MAX ==> after == u16::MAX
            &&& own > u16::MAX && before + own % 0x10000 <= u16::MAX ==> after == before + own
                % 0x10000
            &&& own > u16::MAX && before + own % 0x10000 > u16::MAX ==> after == u16::MAX
            &&& after >= before || before > u16::MAX
        }),
{
    assert(lines.push(more).drop_last() =~= lines);
}

/// The editor is as high as its lines, but for three rows at least and ten at
/// most, and a border of two. Its text has four columns less than the frame,
/// and 20 at least.
pub proof fn law_editor_grows_with_its_text(lines: Seq<Seq<char>>, width: u16)
    ensures
        ({
            let rows = layout::rows_of_all(lines, layout::body_width(width));
            let height = layout::editor_height_of(lines, width);
            &&& rows <= 3 ==> height == 5
            &&& 3 <= rows <= 10 ==> height == rows + 2
            &&& rows >= 10 ==> height == 12
        }),
        width >= 24 ==> layout::body_width(width) == width - 4,
        width < 24 ==> layout::body_width(width) == 20,
{
}

/// From top to bottom a frame has the main area, with five rows at least, the
/// editor with as many rows as it needs, and one row of footer. The main area
/// has the transcript, with 40 columns at least, and 38 columns of sidebar; the
/// sidebar has the actors, the activity and the todos.
pub proof fn law_parts_of_a_frame(rows: u16)
    ensures
        layout::frame_parts(rows).len() == 3,
        layout::frame_parts(rows)[0] == Constraint::Min(5),
        layout::frame_parts(rows)[1] == Constraint::Length(rows),
        layout::frame_parts(rows)[2] == Constraint::Length(1),
        layout::main_parts().len() == 2,
        layout::main_parts()[0] == Constraint::Min(40),
        layout::main_parts()[1] == Constraint::Length(38),
        layout::sidebar_parts().len() == 3,
        layout::sidebar_parts()[0] == Constraint::Percentage(40),
        layout::sidebar_parts()[1] == Constraint::Percentage(30),
        layout::sidebar_parts()[2] == Constraint::Percentage(30),
{
}

/// A frame is split from top to bottom: the editor has the middle part and the
/// footer the last one. Without the sidebar the transcript has all of the first
/// part; with it, the first part is split once more from left to right, the
/// transcript has the left of it, and the panels divide the right from top to
/// bottom. The popup goes over all of it.
pub proof fn law_frame_is_divided(
    frame: FramePlanView,
    size: Rect,
    app: AppStateView,
    editor_lines: Seq<Seq<char>>,
)
    requires
        view::is_frame(frame, size, app, editor_lines),
    ensures
        frame.sidebar is Some <==> app.sidebar_visible,
        frame.popup == view::popup_of(size, app),
        exists|outer: Seq<Rect>, main: Seq<Rect>, panels: Seq<Rect>|
            #![trigger outer.len(), main.len(), panels.len()]
            {
                &&& outer.len() == 3
                &&& layout::may_split_into(
                    size,
                    Direction::Vertical,
                    layout::frame_parts(layout::editor_height_of(editor_lines, size.width)),
                    outer,
                )
                &&& frame.editor == outer[1]
                &&& frame.footer == outer[2]
                &&& !app.sidebar_visible ==> frame.transcript == outer[0]
                &&& app.sidebar_visible ==> {
                    &&& main.len() == 2
                    &&& layout::may_split_into(
                        outer[0],
                        Direction::Horizontal,
                        layout::main_parts(),
                        main,
                    )
                    &&& frame.transcript == main[0]
                    &&& panels.len() == 3
                    &&& layout::may_split_into(
                        main[1],
                        Direction::Vertical,
                        layout::sidebar_parts(),
                        panels,
                    )
                    &&& frame.sidebar->0.actors.area == panels[0]
                    &&& frame.sidebar->0.activity.area == panels[1]
                    &&& frame.sidebar->0.todos.area == panels[2]
                    &&& frame.sidebar->0 == sidebar::sidebar_in(panels, app)
                }
            },
{
    let parts = layout::frame_parts(layout::editor_height_of(editor_lines, size.width));
    let (outer, main, panels) = choose|outer: Seq<Rect>, main: Seq<Rect>, panels: Seq<Rect>|
        #![trigger view::frame_of(size, app, outer, main, panels)]
        {
            &&& layout::is_split(outer, size, Direction::Vertical, parts)
            &&& app.sidebar_visible ==> layout::is_split(
                main,
                outer[0],
                Direction::Horizontal,
                layout::main_parts(),
            ) && layout::is_split(panels, main[1], Direction::Vertical, layout::sidebar_parts())
            &&& frame == view::frame_of(size, app, outer, main, panels)
        };
    assert(outer.len() == 3);
    assert(main.len() >= 0 && panels.len() >= 0);
}

/// A part lies within an area exactly where its first and its last cell do.
pub proof fn law_within_an_area(part: Rect, area: Rect)
    requires
        part.width > 0,
        part.height > 0,
    ensures
        layout::lies_in(part, area) <==> {
            let right = part.x + part.width - 1;
            let bottom = part.y + part.height - 1;
            &&& area.x <= part.x < area.x + area.width
            &&& area.y <= part.y < area.y + area.height
            &&& area.x <= right < area.x + area.width
            &&& area.y <= bottom < area.y + area.height
        },
{
}

} // verus!
