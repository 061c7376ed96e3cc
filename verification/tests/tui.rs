use lethe::tui::state::{ActivityUiRow, ActorRow, AppState, Pane, TodoRow};
use lethe::tui::view::layout::{Rect, editor_height, inner_area, popup_area};
use lethe::tui::view::sidebar::{activity_line, actor_line, draw_activity, draw_actors, draw_todos, todo_line};
use lethe::tui::view::style::{Color, Line, Style};
use lethe::tui::view::{draw, draw_activity_detail, focus_border, sidebar};

fn rect(x: u16, y: u16, width: u16, height: u16) -> Rect {
    Rect { x, y, width, height }
}

fn words(line: &Line) -> String {
    line.spans.iter().map(|span| span.text.as_str()).collect()
}

fn app() -> AppState {
    AppState {
        sidebar_visible: true,
        focused_pane: Pane::Activity,
        actors: Vec::new(),
        activity: Vec::new(),
        activity_selected: 0,
        activity_detail: None,
        unseen_insights: 0,
        todos: Vec::new(),
    }
}

fn actor(id: &str, spawned_by: &str) -> ActorRow {
    ActorRow {
        id: id.to_string(),
        name: format!("n-{id}"),
        state: "running".to_string(),
        outcome: None,
        spawned_by: spawned_by.to_string(),
    }
}

fn activity(title: &str, produced_at: &str, seen: bool) -> ActivityUiRow {
    ActivityUiRow {
        kind: "insight".to_string(),
        title: title.to_string(),
        summary: "sum".to_string(),
        detail: None,
        source_name: "dmn".to_string(),
        produced_at: produced_at.to_string(),
        seen,
    }
}

fn todo(status: &str, priority: &str, due: Option<&str>) -> TodoRow {
    TodoRow {
        title: "T".to_string(),
        status: status.to_string(),
        priority: priority.to_string(),
        due_date: due.map(str::to_string),
    }
}

#[test]
fn borders_show_the_focus() {
    assert_eq!(
        focus_border(&app(), Pane::Activity),
        Style { fg: Some(Color::Cyan), bg: None, bold: true, crossed_out: false }
    );
    assert_eq!(
        focus_border(&app(), Pane::Todos),
        Style { fg: Some(Color::Gray), bg: None, bold: false, crossed_out: false }
    );
}

#[test]
fn areas_shrink_by_their_border() {
    assert_eq!(inner_area(rect(3, 4, 10, 5)), rect(4, 5, 8, 3));
    assert_eq!(inner_area(rect(0, 0, 1, 0)), rect(1, 1, 0, 0));
    assert_eq!(inner_area(rect(65535, 65535, 2, 2)), rect(65535, 65535, 0, 0));
}

#[test]
fn popups_are_centered() {
    assert_eq!(popup_area(rect(0, 0, 200, 50)), rect(60, 15, 80, 20));
    assert_eq!(popup_area(rect(0, 0, 60, 20)), rect(4, 3, 52, 14));
    assert_eq!(popup_area(rect(0, 0, 20, 5)), rect(0, 0, 30, 8));
}

#[test]
fn the_editor_grows_with_its_text() {
    let lines = |n: usize| vec![String::new(); n];
    assert_eq!(editor_height(&lines(0), 80), 5);
    assert_eq!(editor_height(&lines(4), 80), 6);
    assert_eq!(editor_height(&lines(40), 80), 12);
    // Twenty columns of text at least.
    assert_eq!(editor_height(&vec!["é".repeat(81)], 10), 7);
    assert_eq!(editor_height(&vec!["x".repeat(80)], 24), 6);
    assert_eq!(editor_height(&vec!["x".repeat(76 * 5)], 80), 7);
}

#[test]
fn actors_are_grouped_and_none_is_lost() {
    let mut app = app();
    app.actors = vec![
        actor("child-a", "root-a"),
        actor("root-a", ""),
        actor("grandchild", "child-a"),
        actor("root-b", ""),
        actor("child-b", "root-b"),
    ];
    let panel = draw_actors(rect(0, 0, 38, 20), &app);
    let lines: Vec<String> = panel.lines.iter().map(words).collect();
    assert_eq!(
        lines,
        vec![
            "▸ n-root-a [running] root-a",
            "  ↳ n-child-a [running] child-a",
            "▸ n-root-b [running] root-b",
            "  ↳ n-child-b [running] child-b",
            "  ↳ n-grandchild [running] grandchi",
        ]
    );
    assert_eq!(words(&panel.title), " actors (5) ");
    assert_eq!(panel.inner, rect(1, 1, 36, 18));
    app.actors.clear();
    let panel = draw_actors(rect(0, 0, 38, 20), &app);
    assert_eq!(words(&panel.lines[0]), "no actors");
}

#[test]
fn states_have_colors() {
    let color = |state: &str, outcome: Option<&str>| {
        let mut row = actor("a", "");
        row.state = state.to_string();
        row.outcome = outcome.map(str::to_string);
        actor_line(&row, false).spans[3].style.fg
    };
    assert_eq!(color("running", None), Some(Color::Yellow));
    assert_eq!(color("waiting", Some("success")), Some(Color::Blue));
    assert_eq!(color("terminated", Some("success")), Some(Color::Green));
    for bad in ["failure", "killed", "max_turns"] {
        assert_eq!(color("terminated", Some(bad)), Some(Color::Red));
    }
    assert_eq!(color("terminated", Some("other")), Some(Color::Gray));
    assert_eq!(color("terminated", None), Some(Color::Gray));
    assert_eq!(color("new", None), Some(Color::Gray));
    let mut row = actor("a", "");
    row.state = "terminated".to_string();
    row.outcome = Some("killed".to_string());
    assert_eq!(actor_line(&row, false).spans[3].text, "[terminated/killed]");
}

#[test]
fn activity_is_grouped_by_day() {
    let mut app = app();
    app.unseen_insights = 2;
    app.activity = vec![
        activity("c", "2026-03-02T10:11:12+00:00", false),
        activity("b", "2026-03-02T09:00:00+00:00", true),
        activity("a", "2026-03-01T08:00:00+00:00", true),
        activity("x", "", true),
    ];
    let panel = draw_activity(rect(0, 0, 38, 20), &app);
    let lines: Vec<String> = panel.lines.iter().map(words).collect();
    assert_eq!(
        lines,
        vec![
            "— 2026-03-02",
            "✦ c ● 10:11",
            "✦ b 09:00",
            "— 2026-03-01",
            "✦ a 08:00",
            "✦ x",
        ]
    );
    assert_eq!(words(&panel.title), " activity (4) ●2 ");
    // Focus highlights the selection.
    assert_eq!(panel.lines[1].spans[1].style.bg, Some(Color::DarkGray));
    assert_eq!(panel.lines[2].spans[1].style.bg, None);
    app.unseen_insights = 0;
    app.activity.clear();
    let panel = draw_activity(rect(0, 0, 38, 20), &app);
    assert_eq!(words(&panel.title), " activity (0) ");
    assert_eq!(words(&panel.lines[0]), "no background activity yet");
}

#[test]
fn the_selection_pulls_the_viewport() {
    let mut app = app();
    app.activity = (0..10).map(|i| activity(&format!("{i}"), "", true)).collect();
    app.activity_selected = 7;
    let panel = draw_activity(rect(0, 0, 38, 5), &app);
    // Three rows fit: the selected one is the last of them.
    assert_eq!(words(&panel.lines[0]), "✦ 5");
    assert_eq!(words(&panel.lines[2]), "✦ 7");
    assert_eq!(panel.lines[2].spans[1].style.bg, Some(Color::DarkGray));
    let panel = draw_activity(rect(0, 0, 38, 2), &app);
    assert_eq!(panel.lines.len(), 10);
}

#[test]
fn unseen_rows_stand_out() {
    let mut row = activity("t", "2026-03-02T10:11", false);
    row.kind = "activity".to_string();
    let line = activity_line(&row, false);
    assert_eq!(words(&line), "▸ t ● 10:11");
    assert_eq!(line.spans[0].style.fg, Some(Color::Blue));
    assert!(line.spans[1].style.bold);
    row.seen = true;
    row.produced_at = "2026-03-02T".to_string();
    let line = activity_line(&row, false);
    assert_eq!(words(&line), "▸ t");
    assert!(!line.spans[1].style.bold);
}

#[test]
fn todos_are_marked() {
    let line = todo_line(&todo("completed", "high", Some("2026-05-06T07:08")));
    assert_eq!(words(&line), "▣ high T @2026-05-06");
    assert_eq!(line.spans[0].style.fg, Some(Color::Green));
    assert_eq!(line.spans[2].style, Style::bold_colored(Color::Red));
    let line = todo_line(&todo("cancelled", "low", None));
    assert_eq!(words(&line), "▢  low T");
    assert!(line.spans[0].style.crossed_out);
    let line = todo_line(&todo("open", "normal", Some("soon")));
    assert_eq!(words(&line), "▢ normal T @soon");
    assert_eq!(line.spans[0].style, Style::colored(Color::Yellow));
    let mut app = app();
    assert_eq!(words(&draw_todos(rect(0, 0, 9, 9), &app).lines[0]), "no todos");
    app.todos = vec![todo("open", "low", None), todo("open", "low", None)];
    assert_eq!(draw_todos(rect(0, 0, 9, 9), &app).lines.len(), 2);
}

#[test]
fn due_dates_are_cut_at_ten_bytes() {
    for due in ["123456789é", "éééééx", "ééééé", "a€€€", "a€€€€", "", "12345678😀"] {
        let plain = due.get(..due.len().min(10)).is_some();
        assert_eq!(todo("open", "low", Some(due)).has_plain_due_date(), plain, "{due}");
    }
    assert!(todo("open", "low", None).has_plain_due_date());
    assert_eq!(words(&todo_line(&todo("open", "low", Some("éééééx")))), "▢  low T @ééééé");
}

#[test]
fn the_popup_shows_the_detail() {
    let mut app = app();
    app.activity = vec![activity("Title", "2026-03-02T10:11", true)];
    assert!(draw_activity_detail(rect(0, 0, 100, 40), &app).is_none());
    app.activity_detail = Some(1);
    assert!(draw_activity_detail(rect(0, 0, 100, 40), &app).is_none());
    app.activity_detail = Some(0);
    let lines = |app: &AppState| -> Vec<String> {
        draw_activity_detail(rect(0, 0, 100, 40), app).unwrap().lines.iter().map(words).collect()
    };
    let short = vec!["✦ insight  dmn · 2026-03-02T10:11", "", "sum", "", "Esc/Enter to close"];
    assert_eq!(lines(&app), short);
    app.activity[0].detail = Some(" sum \n".to_string());
    assert_eq!(lines(&app), short);
    app.activity[0].detail = Some(" \n".to_string());
    assert_eq!(lines(&app), short);
    app.activity[0].detail = Some(" one\r\ntwo\n\nthree ".to_string());
    assert_eq!(
        lines(&app),
        vec![
            "✦ insight  dmn · 2026-03-02T10:11",
            "",
            "sum",
            "",
            "one",
            "two",
            "",
            "three",
            "",
            "Esc/Enter to close"
        ]
    );
    let popup = draw_activity_detail(rect(0, 0, 100, 40), &app).unwrap();
    assert_eq!(popup.title.text, " Title ");
    assert_eq!(popup.area, rect(10, 10, 80, 20));
}

#[test]
fn a_frame_has_its_parts_in_place() {
    let mut app = app();
    let size = rect(0, 0, 120, 40);
    let plan = draw(size, &app, &vec!["x".to_string()]);
    // Five rows of editor and one of footer at the bottom, and the sidebar on
    // the right.
    assert_eq!(plan.footer, rect(0, 39, 120, 1));
    assert_eq!(plan.editor, rect(0, 34, 120, 5));
    assert_eq!(plan.transcript, rect(0, 0, 82, 34));
    let side = plan.sidebar.unwrap();
    assert_eq!(side.actors.area.x, 82);
    assert_eq!(side.actors.area.width, 38);
    assert_eq!(side.activity.area.y, side.actors.area.y + side.actors.area.height);
    assert_eq!(side.todos.area.y + side.todos.area.height, 34);
    assert!(plan.popup.is_none());
    app.sidebar_visible = false;
    let plan = draw(size, &app, &vec!["x".to_string()]);
    assert!(plan.sidebar.is_none());
    assert_eq!(plan.transcript, rect(0, 0, 120, 34));
}

#[test]
fn the_sidebar_is_three_panels() {
    let side = sidebar::draw(rect(80, 0, 38, 30), &app());
    assert_eq!(side.actors.area, rect(80, 0, 38, 12));
    assert_eq!(side.activity.area, rect(80, 12, 38, 9));
    assert_eq!(side.todos.area, rect(80, 21, 38, 9));
}

#[test]
fn day_lines_do_not_push_the_selection_out() {
    let mut app = app();
    app.activity = vec![
        activity("e", "2026-03-02T10:00", true),
        activity("d", "2026-03-02T09:00", true),
        activity("c", "2026-03-02T08:00", true),
        activity("b", "2026-03-01T08:00", true),
        activity("x", "", true),
        activity("a", "2026-02-01T08:00", true),
    ];
    let shown = |app: &AppState, height: u16| -> Vec<String> {
        draw_activity(rect(0, 0, 38, height + 2), app).lines.iter().map(words).collect()
    };
    // Three rows of one day, and room for the day and two of them.
    app.activity_selected = 2;
    assert_eq!(shown(&app, 3)[..3], ["— 2026-03-02", "✦ d 09:00", "✦ c 08:00"]);
    // With room for all, the list begins at the top.
    assert_eq!(shown(&app, 4)[..4], ["— 2026-03-02", "✦ e 10:00", "✦ d 09:00", "✦ c 08:00"]);
    // Room for one line has no room for a day.
    assert_eq!(shown(&app, 1), ["✦ c 08:00", "✦ b 08:00", "✦ x", "✦ a 08:00"]);
    assert_eq!(draw_activity(rect(0, 0, 38, 3), &app).lines[0].spans[1].style.bg, Some(Color::DarkGray));
    for selected in 0..6 {
        app.activity_selected = selected;
        let wanted = words(&activity_line(&app.activity[selected], true));
        for height in 1..12 {
            let lines = shown(&app, height);
            let at = lines.iter().position(|line| *line == wanted).unwrap();
            assert!(at < height as usize, "{selected} {height}");
            // And no row could be shown above the first one.
            let first = lines.iter().position(|line| !line.starts_with("—")).unwrap();
            assert!(height == 1 || lines[first].starts_with("✦ e") || at + 2 >= height as usize);
        }
    }
    // A selection that is gone scrolls past the rows.
    app.activity_selected = 9;
    assert_eq!(shown(&app, 3), Vec::<String>::new());
    app.activity_selected = 6;
    assert_eq!(shown(&app, 3), ["✦ x", "— 2026-02-01", "✦ a 08:00"]);
}

#[test]
fn a_hidden_sidebar_needs_no_due_dates() {
    let mut app = app();
    app.sidebar_visible = false;
    app.todos = vec![todo("open", "low", Some("123456789é"))];
    assert!(!app.todos[0].has_plain_due_date());
    assert!(draw(rect(0, 0, 120, 40), &app, &Vec::new()).sidebar.is_none());
}

#[test]
fn frames_stay_on_small_screens() {
    let inside = |part: Rect, area: Rect| {
        part.x >= area.x
            && part.y >= area.y
            && part.x as u32 + part.width as u32 <= area.x as u32 + area.width as u32
            && part.y as u32 + part.height as u32 <= area.y as u32 + area.height as u32
    };
    for (width, height) in [(0, 0), (1, 1), (10, 3), (39, 8), (79, 24), (200, 60), (65535, 65535)] {
        for (x, y) in [(0, 0), (3, 7), (65000, 65530)] {
            let size = rect(x, y, width, height);
            let plan = draw(size, &app(), &vec!["x".repeat(300)]);
            let side = plan.sidebar.unwrap();
            for part in [
                plan.transcript,
                plan.editor,
                plan.footer,
                side.actors.area,
                side.activity.area,
                side.todos.area,
            ] {
                assert!(inside(part, size), "{part:?} {size:?}");
            }
        }
    }
}
