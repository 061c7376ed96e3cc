//! What a frame of the terminal interface holds. Layout decisions live here,
//! content in the submodules.
use vstd::prelude::*;
use vstd::string::*;

use crate::text;
use crate::text::around;
use crate::text::same_text;
use crate::text::split_lines;
use crate::text::trim;
use crate::tui::state::ActivityUiRow;
use crate::tui::state::ActivityUiRowView;
use crate::tui::state::AppState;
use crate::tui::state::AppStateView;
use crate::tui::state::Pane;

pub mod laws;
pub mod layout;
pub mod layout_laws;
pub mod panel_laws;
pub mod popup_laws;
pub mod sidebar;
pub mod style;

use crate::tui::view::layout::Direction;
use crate::tui::view::layout::Rect;
use crate::tui::view::layout::editor_height;
use crate::tui::view::layout::frame_constraints;
use crate::tui::view::layout::main_constraints;
use crate::tui::view::layout::popup_area;
use crate::tui::view::layout::split_area;
use crate::tui::view::sidebar::Sidebar;
use crate::tui::view::sidebar::SidebarView;
use crate::tui::view::style::Color;
use crate::tui::view::style::Line;
use crate::tui::view::style::Span;
use crate::tui::view::style::SpanView;
use crate::tui::view::style::Style;

verus! {

/// The border of a pane.
pub open spec fn border_of(app: AppStateView, pane: Pane) -> Style {
    if app.focused_pane == pane {
        style::bold_colored(Color::Cyan)
    } else {
        style::colored(Color::Gray)
    }
}

/// The border of a pane: it stands out on the one with focus.
pub fn focus_border(app: &AppState, pane: Pane) -> (r: Style)
    ensures
        r == border_of(app@, pane),
{
    if app.focused_pane == pane {
        Style::bold_colored(Color::Cyan)
    } else {
        Style::colored(Color::Gray)
    }
}

/// The popup of an activity.
#[derive(Debug)]
pub struct Popup {
    pub area: Rect,
    pub border: Style,
    pub title: Span,
    pub lines: Vec<Line>,
}

/// What a [`Popup`] holds.
pub struct PopupView {
    pub area: Rect,
    pub border: Style,
    pub title: SpanView,
    pub lines: Seq<Seq<SpanView>>,
}

impl View for Popup {
    type V = PopupView;

    open spec fn view(&self) -> PopupView {
        PopupView {
            area: self.area,
            border: self.border,
            title: self.title@,
            lines: text::views(self.lines@),
        }
    }
}

/// What the popup says below the summary: the detail without white space
/// around it, unless there is none or it repeats the summary.
pub open spec fn detail_of(row: ActivityUiRowView) -> Option<Seq<char>> {
    match row.detail {
        Some(detail) => if text::trimmed(detail).len() > 0 && text::trimmed(detail)
            != row.summary {
            Some(text::trimmed(detail))
        } else {
            None
        },
        None => None,
    }
}

/// Each text as a line without a style.
pub open spec fn raw_lines(texts: Seq<Seq<char>>) -> Seq<Seq<SpanView>> {
    Seq::new(texts.len(), |i: int| seq![style::raw(texts[i])])
}

/// The first lines of the popup: kind, source and time, then the summary.
pub open spec fn popup_head(row: ActivityUiRowView) -> Seq<Seq<SpanView>> {
    let insight = row.kind == "insight"@;
    seq![
        seq![
            style::styled(
                if insight {
                    "✦ insight"@
                } else {
                    "▸ activity"@
                },
                style::bold_colored(
                    if insight {
                        Color::Green
                    } else {
                        Color::Blue
                    },
                ),
            ),
            style::styled(
                "  "@ + row.source_name + " · "@ + row.produced_at,
                style::colored(Color::Gray),
            ),
        ],
        Seq::empty(),
        seq![style::styled(row.summary, style::bold())],
    ]
}

/// The last lines of the popup: how to close it.
pub open spec fn popup_tail() -> Seq<Seq<SpanView>> {
    seq![
        Seq::empty(),
        seq![style::styled("Esc/Enter to close"@, style::colored(Color::DarkGray))],
    ]
}

/// The lines of the popup.
pub open spec fn popup_lines(row: ActivityUiRowView) -> Seq<Seq<SpanView>> {
    let detail = match detail_of(row) {
        Some(detail) => seq![Seq::<SpanView>::empty()] + raw_lines(text::lines(detail)),
        None => Seq::empty(),
    };
    popup_head(row) + detail + popup_tail()
}

/// The popup that is open, if one is.
pub open spec fn popup_of(area: Rect, app: AppStateView) -> Option<PopupView> {
    match app.activity_detail {
        Some(index) => if index < app.activity.len() {
            let row = app.activity[index as int];
            Some(
                PopupView {
                    area: layout::popup_in(area),
                    border: style::colored(Color::Green),
                    title: style::styled(" "@ + row.title + " "@, style::bold()),
                    lines: popup_lines(row),
                },
            )
        } else {
            None
        },
        None => None,
    }
}

/// The first lines of the popup.
fn head_lines(row: &ActivityUiRow) -> (r: Vec<Line>)
    ensures
        text::views(r@) == popup_head(row@),
{
    let mut first = if same_text(row.kind.as_str(), "insight") {
        Line::of(Span::styled("✦ insight", Style::bold_colored(Color::Green)))
    } else {
        Line::of(Span::styled("▸ activity", Style::bold_colored(Color::Blue)))
    };
    let mut source = around("  ", row.source_name.as_str(), " · ");
    source.append(row.produced_at.as_str());
    first.push(Span::styled(source.as_str(), Style::colored(Color::Gray)));
    let mut lines: Vec<Line> = Vec::new();
    assert(first@ =~= popup_head(row@)[0]);
    lines.push(first);
    lines.push(Line::empty());
    lines.push(Line::of(Span::styled(row.summary.as_str(), Style::bold())));
    assert(text::views(lines@) =~= popup_head(row@));
    lines
}

/// The popup with the selected activity's "what I did / what I found", if it
/// is open.
pub fn draw_activity_detail(area: Rect, app: &AppState) -> (r: Option<Popup>)
    ensures
        text::opt_view(r) == popup_of(area, app@),
{
    let row = match app.activity_detail {
        Some(index) => if index < app.activity.len() {
            &app.activity[index]
        } else {
            return None;
        },
        None => {
            return None;
        },
    };
    assert(row@ == app@.activity[app.activity_detail->0 as int]);
    let mut lines = head_lines(row);
    let ghost head = text::views(lines@);
    let ghost mut below: Seq<Seq<SpanView>> = Seq::empty();
    assert(text::views(lines@) =~= head + below);
    if let Some(detail) = &row.detail {
        let detail = trim(detail.as_str());
        if detail.unicode_len() > 0 && !same_text(detail, row.summary.as_str()) {
            let blank = Line::empty();
            let texts = split_lines(detail);
            let ghost all = text::lines(detail@);
            proof {
                text::lemma_views_push(lines@, blank);
                below = seq![Seq::<SpanView>::empty()];
            }
            lines.push(blank);
            assert(text::views(lines@) =~= head + below + raw_lines(all.take(0)));
            let mut i: usize = 0;
            while i < texts.len()
                invariant
                    i <= texts.len(),
                    all == text::views(texts@),
                    text::views(lines@) == head + below + raw_lines(all.take(i as int)),
                decreases texts.len() - i,
            {
                let line = Line::of(Span::raw(texts[i].as_str()));
                proof {
                    text::lemma_views_push(lines@, line);
                }
                lines.push(line);
                assert(raw_lines(all.take(i + 1)) =~= raw_lines(all.take(i as int)).push(line@));
                assert(text::views(lines@) =~= head + below + raw_lines(all.take(i + 1)));
                i = i + 1;
            }
            assert(all.take(all.len() as int) =~= all);
            proof {
                below = below + raw_lines(all);
            }
            assert(text::views(lines@) =~= head + below);
        }
    }
    let blank = Line::empty();
    let close = Line::of(Span::styled("Esc/Enter to close", Style::colored(Color::DarkGray)));
    proof {
        text::lemma_views_push(lines@, blank);
        text::lemma_views_push(lines@.push(blank), close);
    }
    lines.push(blank);
    lines.push(close);
    assert(text::views(lines@) =~= head + below + popup_tail());
    Some(
        Popup {
            area: popup_area(area),
            border: Style::colored(Color::Green),
            title: Span::styled(around(" ", row.title.as_str(), " ").as_str(), Style::bold()),
            lines,
        },
    )
}

/// What a frame holds: where the transcript, the editor and the footer go, and
/// what the sidebar and the popup show.
#[derive(Debug)]
pub struct FramePlan {
    pub transcript: Rect,
    pub sidebar: Option<Sidebar>,
    pub editor: Rect,
    pub footer: Rect,
    pub popup: Option<Popup>,
}

/// What a [`FramePlan`] holds.
pub struct FramePlanView {
    pub transcript: Rect,
    pub sidebar: Option<SidebarView>,
    pub editor: Rect,
    pub footer: Rect,
    pub popup: Option<PopupView>,
}

impl View for FramePlan {
    type V = FramePlanView;

    open spec fn view(&self) -> FramePlanView {
        FramePlanView {
            transcript: self.transcript,
            sidebar: text::opt_view(self.sidebar),
            editor: self.editor,
            footer: self.footer,
            popup: text::opt_view(self.popup),
        }
    }
}

/// What a frame holds, for the parts of the frame, and those of the main area
/// and of the sidebar where the sidebar is visible.
pub open spec fn frame_of(
    size: Rect,
    app: AppStateView,
    outer: Seq<Rect>,
    main: Seq<Rect>,
    panels: Seq<Rect>,
) -> FramePlanView {
    FramePlanView {
        transcript: if app.sidebar_visible {
            main[0]
        } else {
            outer[0]
        },
        sidebar: if app.sidebar_visible {
            Some(sidebar::sidebar_in(panels, app))
        } else {
            None
        },
        editor: outer[1],
        footer: outer[2],
        popup: popup_of(size, app),
    }
}

/// What a frame holds, for its parts. `main` is the parts of the main area,
/// and `panels` those of the sidebar, where the sidebar is visible.
pub fn plan_frame(
    size: Rect,
    app: &AppState,
    outer: &Vec<Rect>,
    main: &Vec<Rect>,
    panels: &Vec<Rect>,
) -> (r: FramePlan)
    requires
        outer@.len() == 3,
        app.sidebar_visible ==> main@.len() == 2 && panels@.len() == 3,
        app.sidebar_visible ==> sidebar::plain_due_dates(app@.todos),
    ensures
        r@ == frame_of(size, app@, outer@, main@, panels@),
{
    let popup = draw_activity_detail(size, app);
    if app.sidebar_visible {
        FramePlan {
            transcript: main[0],
            sidebar: Some(sidebar::draw_panels(panels, app)),
            editor: outer[1],
            footer: outer[2],
            popup,
        }
    } else {
        FramePlan { transcript: outer[0], sidebar: None, editor: outer[1], footer: outer[2], popup }
    }
}

/// Whether a frame of this size can hold this: there are parts of the frame,
/// of its main area and of the sidebar for which it does.
pub open spec fn is_frame(
    r: FramePlanView,
    size: Rect,
    app: AppStateView,
    editor_lines: Seq<Seq<char>>,
) -> bool {
    let parts = layout::frame_parts(layout::editor_height_of(editor_lines, size.width));
    exists|outer: Seq<Rect>, main: Seq<Rect>, panels: Seq<Rect>|
        #![trigger frame_of(size, app, outer, main, panels)]
        {
            &&& layout::is_split(outer, size, Direction::Vertical, parts)
            &&& app.sidebar_visible ==> layout::is_split(
                main,
                outer[0],
                Direction::Horizontal,
                layout::main_parts(),
            ) && layout::is_split(panels, main[1], Direction::Vertical, layout::sidebar_parts())
            &&& r == frame_of(size, app, outer, main, panels)
        }
}

/// What a frame of this size holds. `editor_lines` is what stands in the
/// editor.
pub fn draw(size: Rect, app: &AppState, editor_lines: &Vec<String>) -> (r: FramePlan)
    requires
        app.sidebar_visible ==> sidebar::plain_due_dates(app@.todos),
    ensures
        is_frame(r@, size, app@, text::views(editor_lines@)),
{
    let outer = split_area(
        size,
        Direction::Vertical,
        &frame_constraints(editor_height(editor_lines, size.width)),
    );
    let mut main: Vec<Rect> = Vec::new();
    let mut panels: Vec<Rect> = Vec::new();
    if app.sidebar_visible {
        main = split_area(outer[0], Direction::Horizontal, &main_constraints());
        panels = split_area(main[1], Direction::Vertical, &layout::sidebar_constraints());
    }
    let plan = plan_frame(size, app, &outer, &main, &panels);
    assert(plan@ == frame_of(size, app@, outer@, main@, panels@));
    plan
}

} // verus!
