//! What the popup of an activity shows.
use vstd::prelude::*;

use crate::text;
use crate::tui::state::AppStateView;
use crate::tui::view;
use crate::tui::view::layout;
use crate::tui::view::layout::Rect;
use crate::tui::view::style;
use crate::tui::view::style::Color;
use crate::tui::view::style::SpanView;
use crate::tui::view::style::Style;

verus! {

/// The popup is open exactly where a row is opened that is there.
pub proof fn law_popup_opens_on_a_row(area: Rect, app: AppStateView)
    ensures
        view::popup_of(area, app) is Some <==> (app.activity_detail matches Some(index) && index
            < app.activity.len()),
{
}

/// The popup shows the row that was opened: its title is that row's, its first
/// line says what kind of entry it is, where it comes from and when it was
/// produced, and under a line left free stands its summary.
pub proof fn law_popup_shows_the_opened_row(area: Rect, app: AppStateView, index: nat)
    requires
        app.activity_detail == Some(index),
        index < app.activity.len(),
    ensures
        ({
            let row = app.activity[index as int];
            let popup = view::popup_of(area, app)->0;
            &&& popup.area == layout::popup_in(area)
            &&& popup.title.text == " "@ + row.title + " "@
            &&& popup.title.style == style::bold()
            &&& popup.border == style::colored(Color::Green)
            &&& popup.lines.len() >= 5
            &&& popup.lines[0].len() == 2
            &&& row.kind == "insight"@ ==> popup.lines[0][0].text == "✦ insight"@
                && popup.lines[0][0].style == style::bold_colored(Color::Green)
            &&& row.kind != "insight"@ ==> popup.lines[0][0].text == "▸ activity"@
                && popup.lines[0][0].style == style::bold_colored(Color::Blue)
            &&& popup.lines[0][1].text == "  "@ + row.source_name + " · "@ + row.produced_at
            &&& popup.lines[0][1].style == style::colored(Color::Gray)
            &&& popup.lines[1].len() == 0
            &&& popup.lines[2].len() == 1
            &&& popup.lines[2][0].text == row.summary
            &&& popup.lines[2][0].style == style::bold()
        }),
{
}

/// Below the summary stand the lines of the detail, without the white space
/// around it and under a line left free; nothing stands there where the row has
/// no detail, a blank one, or one that repeats the summary. The last line says
/// how the popup is closed.
pub proof fn law_popup_shows_the_detail(area: Rect, app: AppStateView, index: nat)
    requires
        app.activity_detail == Some(index),
        index < app.activity.len(),
    ensures
        ({
            let row = app.activity[index as int];
            let popup = view::popup_of(area, app)->0;
            let more = row.detail is Some && !text::blank(row.detail->0) && text::trimmed(
                row.detail->0,
            ) != row.summary;
            let below = text::lines(text::trimmed(row.detail->0));
            let n = popup.lines.len() as int;
            &&& more ==> n == 6 + below.len()
            &&& more ==> popup.lines[3].len() == 0
            &&& more ==> forall|k: int|
                0 <= k < below.len() ==> #[trigger] popup.lines[4 + k] == seq![
                    style::raw(below[k]),
                ]
            &&& !more ==> n == 5
            &&& popup.lines[n - 2].len() == 0
            &&& popup.lines[n - 1].len() == 1
            &&& popup.lines[n - 1][0].text == "Esc/Enter to close"@
            &&& popup.lines[n - 1][0].style == style::colored(Color::DarkGray)
        }),
{
    let row = app.activity[index as int];
    if let Some(detail) = row.detail {
        text::lemma_trimmed_empty(detail);
    }
    let popup = view::popup_of(area, app)->0;
    assert(popup.lines == view::popup_lines(row));
}

/// The popup depends on the row that was opened and on nothing else of what is
/// shown: neither the other rows, nor which one is selected, nor the focus.
pub proof fn law_popup_depends_on_its_row_alone(
    area: Rect,
    app: AppStateView,
    other: AppStateView,
    index: nat,
    elsewhere: nat,
)
    requires
        app.activity_detail == Some(index),
        index < app.activity.len(),
        other.activity_detail == Some(elsewhere),
        elsewhere < other.activity.len(),
        app.activity[index as int] == other.activity[elsewhere as int],
    ensures
        view::popup_of(area, app) == view::popup_of(area, other),
{
}

/// A text in a style keeps both; a raw one has neither color nor weight.
pub proof fn law_spans_keep_their_text(words: Seq<char>, look: Style, color: Color)
    ensures
        style::styled(words, look) == (SpanView { text: words, style: look }),
        style::raw(words).text == words,
        ({
            let plain = style::raw(words).style;
            plain.fg is None && plain.bg is None && !plain.bold && !plain.crossed_out
        }),
        style::plain() == style::raw(words).style,
        style::colored(color).fg == Some(color),
        !style::colored(color).bold && !style::colored(color).crossed_out,
        style::colored(color).bg is None,
        style::bold().fg is None && style::bold().bg is None,
        style::bold().bold && !style::bold().crossed_out,
        style::bold_colored(color).fg == Some(color),
        style::bold_colored(color).bold && !style::bold_colored(color).crossed_out,
        style::bold_colored(color).bg is None,
{
}

} // verus!
