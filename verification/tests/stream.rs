use lethe::interfaces::browser_stream::{
    FrameKind, FrameStep, RelayStep, SessionFile, alien_source, candidates, dialed, frame_step, is_session_file,
    plain_source, start_relay, status_members, status_text,
};

fn session(port: Option<u16>, token: Option<&str>, started_at: Option<u64>) -> SessionFile {
    SessionFile {
        stream_port: port,
        stream_token: token.map(str::to_string),
        started_at,
    }
}

fn names(requested: Option<&str>, sessions: &Vec<SessionFile>) -> Vec<&'static str> {
    candidates(requested, sessions, None).iter().map(|s| s.name).collect()
}

#[test]
fn the_newest_session_with_a_stream_wins() {
    let sessions = vec![
        session(Some(1), Some("a"), Some(5)),
        session(None, Some("b"), Some(99)),
        session(Some(3), None, Some(99)),
        session(Some(4), Some("d"), Some(7)),
        session(Some(5), Some("e"), Some(7)),
        session(Some(6), Some("f"), None),
    ];
    let source = alien_source(&sessions).unwrap();
    assert_eq!(source.name, "alien");
    assert_eq!(source.url, "ws://127.0.0.1:5/?token=e");
    assert_eq!(alien_source(&Vec::new()), None);
    assert_eq!(
        alien_source(&vec![session(Some(65535), Some(""), None)]).unwrap().url,
        "ws://127.0.0.1:65535/?token="
    );
}

#[test]
fn the_plain_port_has_a_default() {
    let url = |setting| plain_source(setting).url;
    assert_eq!(url(None), "ws://127.0.0.1:9223");
    assert_eq!(url(Some("9000")), "ws://127.0.0.1:9000");
    assert_eq!(url(Some("+80")), "ws://127.0.0.1:80");
    assert_eq!(url(Some("0080")), "ws://127.0.0.1:80");
    for bad in ["", "65536", "-1", " 80", "8o", "+"] {
        assert_eq!(url(Some(bad)), "ws://127.0.0.1:9223");
        assert!(bad.parse::<u16>().is_err());
    }
}

#[test]
fn alien_is_preferred_and_either_can_be_forced() {
    let sessions = vec![session(Some(1), Some("a"), None)];
    assert_eq!(names(None, &sessions), vec!["alien", "plain"]);
    assert_eq!(names(Some("other"), &sessions), vec!["alien", "plain"]);
    assert_eq!(names(Some("alien"), &sessions), vec!["alien"]);
    assert_eq!(names(Some("plain"), &sessions), vec!["plain"]);
    assert_eq!(names(Some("alien"), &Vec::new()), Vec::<&str>::new());
    assert_eq!(names(None, &Vec::new()), vec!["plain"]);
}

#[test]
fn the_first_answer_is_relayed() {
    let sources = candidates(None, &vec![session(Some(1), Some("a"), None)], None);
    assert_eq!(start_relay(&sources), RelayStep::Dial(0));
    assert_eq!(dialed(&sources, 0, false), RelayStep::Dial(1));
    assert_eq!(
        dialed(&sources, 0, true),
        RelayStep::Relay(status_text("relaying", Some("alien")))
    );
    assert_eq!(
        dialed(&sources, 1, true),
        RelayStep::Relay(status_text("relaying", Some("plain")))
    );
    assert_eq!(
        dialed(&sources, 1, false),
        RelayStep::NoBrowser(status_text("no_browser", None))
    );
    assert_eq!(
        start_relay(&Vec::new()),
        RelayStep::NoBrowser(status_text("no_browser", None))
    );
}

#[test]
fn status_messages_are_json() {
    let read = |t: &str| serde_json::from_str::<serde_json::Value>(t).unwrap();
    let none = read(&status_text("no_browser", None));
    assert_eq!(none["type"], "status");
    assert_eq!(none["state"], "no_browser");
    assert_eq!(none.as_object().unwrap().len(), 2);
    let some = read(&status_text("relaying", Some("a\"b")));
    assert_eq!(some["source"], "a\"b");
    assert_eq!(some.as_object().unwrap().len(), 3);
    assert_eq!(status_members("x", None).len(), 2);
}

#[test]
fn frames_pass_untouched_or_not_at_all() {
    assert_eq!(frame_step(FrameKind::Text), FrameStep::Forward);
    assert_eq!(frame_step(FrameKind::Binary), FrameStep::Forward);
    assert_eq!(frame_step(FrameKind::Ping), FrameStep::Skip);
    assert_eq!(frame_step(FrameKind::Pong), FrameStep::Skip);
    assert_eq!(frame_step(FrameKind::Raw), FrameStep::Skip);
    assert_eq!(frame_step(FrameKind::Close), FrameStep::Stop);
}

#[test]
fn session_files_are_json_files() {
    for name in ["a.json", "..json", "a.b.json", ".json", "json", "a.jsonx", "a.JSON", ""] {
        let by_path = std::path::Path::new(name).extension().is_some_and(|e| e == "json");
        assert_eq!(is_session_file(name), by_path, "{name}");
    }
}
