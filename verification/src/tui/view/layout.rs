//! Where things go.
use vstd::prelude::*;
use vstd::string::*;

use ratatui::layout as solver;

use crate::text;

verus! {

/// A rectangle of terminal cells.
#[derive(Clone, Copy, Debug, PartialEq, Eq, Structural)]
pub struct Rect {
    pub x: u16,
    pub y: u16,
    pub width: u16,
    pub height: u16,
}

/// Along which axis an area is split.
#[derive(Clone, Copy, Debug, PartialEq, Eq, Structural)]
pub enum Direction {
    Horizontal,
    Vertical,
}

/// What a part of a split area asks for.
#[derive(Clone, Copy, Debug, PartialEq, Eq, Structural)]
pub enum Constraint {
    Min(u16),
    Length(u16),
    Percentage(u16),
}

/// The outcomes that `ratatui::layout::Layout::split` can have for an area, an
/// axis and what the parts ask for, with no margin and no spacing. Several can
/// be possible, and which of them comes is not claimed.
pub uninterp spec fn may_split_into(
    area: Rect,
    direction: Direction,
    constraints: Seq<Constraint>,
    parts: Seq<Rect>,
) -> bool;

/// Whether `part` lies within `area`.
pub open spec fn lies_in(part: Rect, area: Rect) -> bool {
    &&& area.x <= part.x
    &&& part.x + part.width <= area.x + area.width
    &&& area.y <= part.y
    &&& part.y + part.height <= area.y + area.height
}

/// Whether there are `n` parts that lie within the area, and across the axis
/// of the split each has the extent of the area.
pub open spec fn spans(parts: Seq<Rect>, area: Rect, direction: Direction, n: nat) -> bool {
    &&& parts.len() == n
    &&& forall|i: int|
        0 <= i < n ==> lies_in(#[trigger] parts[i], area) && match direction {
            Direction::Vertical => parts[i].x == area.x && parts[i].width == area.width,
            Direction::Horizontal => parts[i].y == area.y && parts[i].height == area.height,
        }
}

/// Whether `parts` can come of splitting `area` so.
pub open spec fn is_split(
    parts: Seq<Rect>,
    area: Rect,
    direction: Direction,
    constraints: Seq<Constraint>,
) -> bool {
    &&& may_split_into(area, direction, constraints, parts)
    &&& spans(parts, area, direction, constraints.len())
}

/// Splits an area by `ratatui::layout::Layout::split`, with no margin and no
/// spacing. There is one part for each constraint, in their order; each lies
/// within the area, as the solver's required constraints demand; and across the
/// axis of the split each has the extent of the area. Where the parts begin and
/// end along the axis is what a constraint solver makes of it that walks hash
/// maps with seeds of their own, so no more is claimed of that than that it is
/// a possible outcome.
#[verifier::external_body]
pub(crate) fn split_area(area: Rect, direction: Direction, constraints: &Vec<Constraint>) -> (r: Vec<
    Rect,
>)
    ensures
        may_split_into(area, direction, constraints@, r@),
        spans(r@, area, direction, constraints@.len()),
{
    let asked = constraints.iter().map(|c| match *c {
        Constraint::Min(n) => solver::Constraint::Min(n),
        Constraint::Length(n) => solver::Constraint::Length(n),
        Constraint::Percentage(n) => solver::Constraint::Percentage(n),
    });
    let axis = match direction {
        Direction::Horizontal => solver::Direction::Horizontal,
        Direction::Vertical => solver::Direction::Vertical,
    };
    let Rect { x, y, width, height } = area;
    let parts = solver::Layout::new(axis, asked).split(solver::Rect { x, y, width, height });
    parts.iter().map(|p| Rect { x: p.x, y: p.y, width: p.width, height: p.height }).collect()
}

/// `a` less `b`, at least zero.
pub open spec fn less(a: u16, b: int) -> u16 {
    if a >= b {
        (a - b) as u16
    } else {
        0
    }
}

/// `n`, but at least `low` and at most `high`.
pub open spec fn within(n: u16, low: u16, high: u16) -> u16 {
    if n > high {
        high
    } else if n < low {
        low
    } else {
        n
    }
}

/// What is left of an area inside a border of one cell.
pub open spec fn inside(area: Rect) -> Rect {
    Rect {
        x: if area.x < u16::MAX {
            (area.x + 1) as u16
        } else {
            u16::MAX
        },
        y: if area.y < u16::MAX {
            (area.y + 1) as u16
        } else {
            u16::MAX
        },
        width: less(area.width, 2),
        height: less(area.height, 2),
    }
}

/// What is left of an area inside a border of one cell.
pub fn inner_area(area: Rect) -> (r: Rect)
    ensures
        r == inside(area),
{
    Rect {
        x: area.x.saturating_add(1),
        y: area.y.saturating_add(1),
        width: area.width.saturating_sub(2),
        height: area.height.saturating_sub(2),
    }
}

/// Where the popup goes in a frame of this area: in the middle, with a rim
/// around it, and within its own limits of size.
pub open spec fn popup_in(area: Rect) -> Rect {
    let width = within(less(area.width, 8), 30, 80);
    let height = within(less(area.height, 6), 8, 20);
    Rect {
        x: less(area.width, width as int) / 2,
        y: less(area.height, height as int) / 2,
        width,
        height,
    }
}

/// Where the popup goes in a frame of this area.
pub fn popup_area(area: Rect) -> (r: Rect)
    ensures
        r == popup_in(area),
{
    let wide: u16 = area.width.saturating_sub(8);
    let width: u16 = if wide > 80 {
        80
    } else if wide < 30 {
        30
    } else {
        wide
    };
    let high: u16 = area.height.saturating_sub(6);
    let height: u16 = if high > 20 {
        20
    } else if high < 8 {
        8
    } else {
        high
    };
    Rect {
        x: area.width.saturating_sub(width) / 2,
        y: area.height.saturating_sub(height) / 2,
        width,
        height,
    }
}

/// The columns that the text of an editor of this width has.
pub open spec fn body_width(width: u16) -> nat {
    if width >= 24 {
        (width - 4) as nat
    } else {
        20
    }
}

/// The rows that a line of `len` characters takes, at least one.
pub open spec fn rows_of(len: nat, width: nat) -> nat {
    if len == 0 {
        1
    } else {
        ((len + width - 1) / width as int) as nat
    }
}

/// The rows that the lines take, counted in 16 bits: each line's number of
/// rows wraps around, and the sum stays at its largest value.
pub open spec fn rows_of_all(lines: Seq<Seq<char>>, width: nat) -> nat
    decreases lines.len(),
{
    if lines.len() == 0 {
        0
    } else {
        let sum = rows_of_all(lines.drop_last(), width) + rows_of(lines.last().len(), width)
            % 0x10000;
        if sum > u16::MAX {
            u16::MAX as nat
        } else {
            sum
        }
    }
}

/// The height of an editor of this width with these lines: as many rows as the
/// lines take, but at least three and at most ten, and a border.
pub open spec fn editor_height_of(lines: Seq<Seq<char>>, width: u16) -> u16 {
    (within(rows_of_all(lines, body_width(width)) as u16, 3, 10) + 2) as u16
}

/// The rows that a line of `len` characters takes.
fn line_rows(len: usize, width: usize) -> (r: usize)
    requires
        width > 0,
    ensures
        r == rows_of(len as nat, width as nat),
{
    if len == 0 {
        return 1;
    }
    let whole: usize = len / width;
    let rest: usize = len % width;
    let ghost w = width as int;
    let ghost q = whole as int;
    let ghost m = rest as int;
    assert(len == q * w + m) by {
        vstd::arithmetic::div_mod::lemma_fundamental_div_mod(len as int, w);
        vstd::arithmetic::mul::lemma_mul_is_commutative(w, q);
    }
    if rest == 0 {
        assert((len + w - 1) / w == q) by {
            vstd::arithmetic::div_mod::lemma_fundamental_div_mod_converse(
                len + w - 1,
                w,
                q,
                w - 1,
            );
        }
        whole
    } else {
        assert((q + 1) * w == q * w + w) by (nonlinear_arith);
        assert((len + w - 1) / w == q + 1) by {
            vstd::arithmetic::div_mod::lemma_fundamental_div_mod_converse(
                len + w - 1,
                w,
                q + 1,
                m - 1,
            );
        }
        assert(q + 1 <= len) by (nonlinear_arith)
            requires
                len == q * w + m,
                m >= 1,
                w >= 1,
                q >= 0,
        ;
        whole + 1
    }
}

/// The height of an editor of this width with these lines.
pub fn editor_height(lines: &Vec<String>, width: u16) -> (r: u16)
    ensures
        r == editor_height_of(text::views(lines@), width),
        5 <= r <= 12,
{
    let inner: u16 = width.saturating_sub(4);
    let body: usize = if inner < 20 {
        20
    } else {
        inner as usize
    };
    let ghost all = text::views(lines@);
    let mut rows: u16 = 0;
    let mut i: usize = 0;
    while i < lines.len()
        invariant
            i <= lines.len(),
            all == text::views(lines@),
            body == body_width(width),
            body > 0,
            rows == rows_of_all(all.take(i as int), body as nat),
        decreases lines.len() - i,
    {
        let len: usize = lines[i].as_str().unicode_len();
        let visible: usize = line_rows(len, body);
        assert(all.take(i + 1).drop_last() =~= all.take(i as int));
        assert(all.take(i + 1).last() == lines@[i as int]@);
        rows = rows.saturating_add((visible % 0x10000) as u16);
        i = i + 1;
    }
    assert(all.take(all.len() as int) =~= all);
    if rows < 3 {
        5
    } else if rows > 10 {
        12
    } else {
        rows + 2
    }
}

/// The parts of a frame, from top to bottom: the main area, the editor and
/// the footer.
pub open spec fn frame_parts(editor_rows: u16) -> Seq<Constraint> {
    seq![Constraint::Min(5), Constraint::Length(editor_rows), Constraint::Length(1)]
}

/// The parts of a frame, from top to bottom.
pub fn frame_constraints(editor_rows: u16) -> (r: Vec<Constraint>)
    ensures
        r@ == frame_parts(editor_rows),
{
    let mut out: Vec<Constraint> = Vec::new();
    out.push(Constraint::Min(5));
    out.push(Constraint::Length(editor_rows));
    out.push(Constraint::Length(1));
    out
}

/// The parts of the main area: the transcript and the sidebar.
pub open spec fn main_parts() -> Seq<Constraint> {
    seq![Constraint::Min(40), Constraint::Length(38)]
}

/// The parts of the main area: the transcript and the sidebar.
pub fn main_constraints() -> (r: Vec<Constraint>)
    ensures
        r@ == main_parts(),
{
    let mut out: Vec<Constraint> = Vec::new();
    out.push(Constraint::Min(40));
    out.push(Constraint::Length(38));
    out
}

/// The parts of the sidebar: the actors, the activity and the todos.
pub open spec fn sidebar_parts() -> Seq<Constraint> {
    seq![Constraint::Percentage(40), Constraint::Percentage(30), Constraint::Percentage(30)]
}

/// The parts of the sidebar: the actors, the activity and the todos.
pub fn sidebar_constraints() -> (r: Vec<Constraint>)
    ensures
        r@ == sidebar_parts(),
{
    let mut out: Vec<Constraint> = Vec::new();
    out.push(Constraint::Percentage(40));
    out.push(Constraint::Percentage(30));
    out.push(Constraint::Percentage(30));
    out
}

/// The popup lies within a frame that is large enough to hold its smallest
/// form, and its margins on two sides differ by one cell at most.
pub proof fn law_popup_is_centered(area: Rect)
    requires
        area.width >= 30,
        area.height >= 8,
    ensures
        ({
            let p = popup_in(area);
            let right = area.width - p.x - p.width;
            let below = area.height - p.y - p.height;
            &&& p.x + p.width <= area.width
            &&& p.y + p.height <= area.height
            &&& p.x <= right <= p.x + 1
            &&& p.y <= below <= p.y + 1
        }),
{
}

} // verus!
