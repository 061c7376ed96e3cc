use lethe::actor::background::BackgroundResult;
use lethe::config::{BackgroundSettings, HostedPluginSettings, Settings};
use lethe::scheduler::brainstem::{
    BeatOutcome, BeatState, BeatStep, BrainstemEmissionKind, HeartbeatAction, HeartbeatOutcome, HeartbeatPrompt,
    HeartbeatState, LoopStep, Todo, TodoPriority, active_reminders, after_tick, answered, beat_interval, close_tick,
    conclude_beat, emissions, is_idle_tick, open_beat, reminder_filter, survey_beat, triggered_message,
};
use lethe::scheduler::proactive::{ProactiveOutbox, ProactiveRateLimiter};

fn test_settings() -> Settings {
    Settings {
        background: BackgroundSettings {
            heartbeat_enabled: true,
            heartbeat_interval_seconds: 900,
            proactive_max_per_day: 4,
            proactive_cooldown_minutes: 60,
        },
        hosted_plugins: HostedPluginSettings {
            replace_local_todos: false,
        },
    }
}

fn todo(title: &str, priority: TodoPriority, due_date: Option<&str>) -> Todo {
    Todo {
        title: title.to_string(),
        priority,
        due_date: due_date.map(str::to_string),
    }
}

#[test]
fn hosted_todo_replacement_suppresses_local_reminders() {
    let mut settings = test_settings();
    settings.hosted_plugins.replace_local_todos = true;
    let todos = vec![todo("Submit report", TodoPriority::High, None)];
    assert_eq!(active_reminders(&todos, &settings), "");
    assert_eq!(active_reminders(&Vec::new(), &settings), "");
}

#[test]
fn beat_state_roundtrips_and_rederives_limiter_config() {
    let mut settings = test_settings();
    settings.background.proactive_max_per_day = 4;
    settings.background.proactive_cooldown_minutes = 60;
    let mut state = BeatState::new(&settings);
    state.limiter.record();
    state.outbox.defer("held insight");
    state.heartbeat.heartbeat_count = 7;

    let json = serde_json::Value::Array(vec![
        serde_json::Value::from(state.heartbeat.heartbeat_count),
        serde_json::Value::from(state.limiter.max_per_day),
        serde_json::Value::from(state.limiter.cooldown_seconds),
        serde_json::Value::from(state.limiter.sends.clone()),
        serde_json::Value::from(state.outbox.held.clone()),
    ]);
    let json: serde_json::Value = serde_json::from_str(&json.to_string()).unwrap();
    let restored = BeatState {
        heartbeat: HeartbeatState {
            heartbeat_count: json[0].as_u64().unwrap(),
        },
        limiter: ProactiveRateLimiter {
            max_per_day: json[1].as_u64().unwrap() as u32,
            cooldown_seconds: json[2].as_u64().unwrap(),
            sends: json[3].as_array().unwrap().iter().map(|v| v.as_i64().unwrap()).collect(),
        },
        outbox: ProactiveOutbox {
            held: json[4].as_str().map(str::to_string),
        },
    };
    // A config change between beats applies on restore without touching
    // the dynamic parts (send history, deferred message, beat counter).
    settings.background.proactive_max_per_day = 9;
    let restored = restored.restored(&settings);

    assert_eq!(restored.limiter.max_per_day, 9);
    assert_eq!(restored.limiter.send_count(), 1);
    assert!(!restored.outbox.is_empty());
    assert_eq!(restored.heartbeat.heartbeat_count, 7);
}

#[test]
fn idle_gate_yields_to_open_work() {
    // Nothing due, not the first tick: skip.
    assert!(is_idle_tick(false, false, "", ""));
    assert!(is_idle_tick(false, false, "  \n", "  "));

    // Any unfinished work defeats it, even with no reminders.
    assert!(!is_idle_tick(
        false,
        false,
        "",
        "- subagent 'researcher' (task=blocked) — BLOCKED, needs attention"
    ));
    assert!(!is_idle_tick(false, false, "", "- todo #3 [in_progress]"));

    // Reminders, first tick, and the deep review still defeat it too.
    assert!(!is_idle_tick(false, false, "- [high] Submit report", ""));
    assert!(!is_idle_tick(true, false, "", ""));
    assert!(!is_idle_tick(false, true, "", ""));
}

fn prompt() -> HeartbeatPrompt {
    HeartbeatPrompt {
        message: "beat".to_string(),
        first_tick: false,
        use_full_context: false,
    }
}

fn nothing() -> BackgroundResult {
    BackgroundResult::default()
}

#[test]
fn a_beat_begins_with_nothing_decided() {
    let fresh = BeatOutcome::default();
    assert!(fresh.messages.is_empty() && !fresh.idle && !fresh.open_work);
    let mut outcome = BeatOutcome {
        messages: vec!["one".to_string()],
        idle: false,
        open_work: true,
    };
    let copy = outcome.clone();
    outcome.messages.clear();
    assert_eq!(copy.messages, vec!["one".to_string()]);
    assert!(copy.open_work && !copy.idle);
}

fn answer(action: HeartbeatAction, message: &str) -> HeartbeatOutcome {
    HeartbeatOutcome {
        action,
        message: message.to_string(),
    }
}

#[test]
fn a_message_that_is_allowed_is_sent_trimmed_and_counted() {
    let mut state = BeatState::new(&test_settings());
    let mut outcome = open_beat(&mut state, 1000);
    assert!(outcome.messages.is_empty());
    let step = survey_beat(
        &mut state,
        &mut outcome,
        &prompt(),
        "- [high] x",
        " ",
        HeartbeatState { heartbeat_count: 99 },
    );
    assert_eq!(step, BeatStep::Converse);
    assert!(!outcome.open_work);
    assert!(!outcome.idle);
    assert_eq!(state.heartbeat.heartbeat_count, 0);
    conclude_beat(
        &mut state,
        &mut outcome,
        &nothing(),
        &answer(HeartbeatAction::Send, " Hi. "),
        1000,
    );
    assert_eq!(outcome.messages, vec!["Hi.".to_string()]);
    assert_eq!(state.limiter.sends, vec![1000]);
    assert!(state.outbox.is_empty());
}

#[test]
fn rate_limited_is_not_silenced() {
    let mut state = BeatState::new(&test_settings());
    state.limiter.record_at(1000);
    let mut outcome = open_beat(&mut state, 1100);
    conclude_beat(
        &mut state,
        &mut outcome,
        &nothing(),
        &answer(HeartbeatAction::Send, " Later. "),
        1100,
    );
    assert!(outcome.messages.is_empty());
    assert_eq!(state.outbox.held.as_deref(), Some("Later."));
    assert_eq!(state.limiter.send_count(), 1);

    // Still within the pause: it waits on.
    assert!(open_beat(&mut state, 4599).messages.is_empty());
    assert!(!state.outbox.is_empty());

    // The pause is over: the message goes first, even when the beat rests.
    let mut outcome = open_beat(&mut state, 4600);
    assert_eq!(outcome.messages, vec!["Later.".to_string()]);
    assert!(state.outbox.is_empty());
    assert_eq!(state.limiter.sends, vec![1000, 4600]);
    let step = survey_beat(
        &mut state,
        &mut outcome,
        &prompt(),
        "",
        "",
        HeartbeatState { heartbeat_count: 3 },
    );
    assert_eq!(step, BeatStep::Rest);
    assert!(outcome.idle);
    assert_eq!(state.heartbeat.heartbeat_count, 3);
    assert_eq!(outcome.messages.len(), 1);
}

#[test]
fn silence_stays_silence() {
    let mut state = BeatState::new(&test_settings());
    for reply in [
        answer(HeartbeatAction::Idle, "not this"),
        answer(HeartbeatAction::Send, " \n "),
    ] {
        let mut outcome = open_beat(&mut state, 5);
        conclude_beat(&mut state, &mut outcome, &nothing(), &reply, 5);
        assert!(outcome.messages.is_empty());
        assert!(state.outbox.is_empty());
        assert_eq!(state.limiter.send_count(), 0);
    }
}

#[test]
fn the_limiter_counts_by_day_and_pause() {
    let mut settings = test_settings();
    settings.background.proactive_max_per_day = 2;
    settings.background.proactive_cooldown_minutes = 1;
    let mut limiter = ProactiveRateLimiter::from_settings(&settings);
    assert_eq!(limiter.cooldown_seconds, 60);
    assert!(limiter.allowed_at(0));
    limiter.record_at(0);
    assert!(!limiter.allowed_at(59));
    assert!(limiter.allowed_at(60));
    limiter.record_at(60);
    assert!(!limiter.allowed_at(86_399));
    assert!(limiter.allowed_at(86_400));
    settings.background.proactive_max_per_day = 0;
    assert!(!ProactiveRateLimiter::from_settings(&settings).allowed_at(0));
}

#[test]
fn recording_now_uses_the_clock() {
    let mut limiter = ProactiveRateLimiter::from_settings(&test_settings());
    limiter.record();
    assert!(limiter.sends[0] > 1_600_000_000);
}

#[test]
fn the_outbox_keeps_the_newest_message() {
    let limiter = ProactiveRateLimiter::from_settings(&test_settings());
    let mut outbox = ProactiveOutbox::new();
    assert!(outbox.is_empty());
    assert_eq!(outbox.take_ready(&limiter, 0), None);
    outbox.defer("a");
    outbox.defer("b");
    assert_eq!(outbox.take_ready(&limiter, 0).as_deref(), Some("b"));
    assert!(outbox.is_empty());
}

#[test]
fn reminders_are_listed() {
    let settings = test_settings();
    let todos = vec![
        todo("Pay rent", TodoPriority::High, Some("2026-02-01")),
        todo("Water plants", TodoPriority::Low, None),
        todo("Call", TodoPriority::Normal, None),
    ];
    assert_eq!(
        active_reminders(&todos, &settings),
        "- [high] Pay rent (due 2026-02-01)\n- [low] Water plants\n- [normal] Call"
    );
    let many: Vec<Todo> = (0..15).map(|i| todo(&format!("t{i}"), TodoPriority::Low, None)).collect();
    assert_eq!(active_reminders(&many, &settings).lines().count(), 10);
    assert_eq!(active_reminders(&Vec::new(), &settings), "");
    let filter = reminder_filter();
    assert!(!filter.include_completed);
    assert_eq!(filter.limit, 20);
}

#[test]
fn the_interval_is_at_least_a_second() {
    let mut settings = test_settings();
    assert_eq!(beat_interval(&settings), Some(900));
    settings.background.heartbeat_interval_seconds = 0;
    assert_eq!(beat_interval(&settings), Some(1));
    settings.background.heartbeat_enabled = false;
    assert_eq!(beat_interval(&settings), None);
}

#[test]
fn every_message_is_emitted() {
    let outcome = BeatOutcome {
        messages: vec!["a".to_string(), "b".to_string()],
        idle: false,
        open_work: false,
    };
    let out = emissions(&outcome);
    assert_eq!(out.len(), 2);
    assert_eq!(out[0].kind, BrainstemEmissionKind::Proactive);
    assert_eq!(out[1].message, "b");
    assert_eq!(triggered_message(&outcome).as_deref(), Some("a"));
    let none = BeatOutcome {
        messages: Vec::new(),
        idle: true,
        open_work: false,
    };
    assert_eq!(triggered_message(&none), None);
}

#[test]
fn a_flood_keeps_its_first_message() {
    let outcome = |n: usize| BeatOutcome {
        messages: (0..n).map(|i| format!("{i}")).collect(),
        idle: false,
        open_work: false,
    };
    assert_eq!(triggered_message(&outcome(64)).as_deref(), Some("0"));
    assert_eq!(triggered_message(&outcome(65)).as_deref(), Some("0"));
}

#[test]
fn a_failed_beat_leaves_the_state_as_it_was() {
    let mut state = BeatState::new(&test_settings());
    state.outbox.defer("waits");
    let mut beaten = state.clone();
    let outcome = open_beat(&mut beaten, 7);
    assert_eq!(outcome.messages, vec!["waits".to_string()]);
    assert!(beaten.outbox.is_empty());

    let failed = close_tick(&mut state, beaten.clone(), Err("no model".to_string()));
    assert_eq!(failed.err().as_deref(), Some("no model"));
    assert_eq!(state.outbox.held.as_deref(), Some("waits"));
    assert_eq!(state.limiter.send_count(), 0);

    let emitted = close_tick(&mut state, beaten, Ok(outcome)).unwrap();
    assert_eq!(emitted.len(), 1);
    assert_eq!(emitted[0].message, "waits");
    assert!(state.outbox.is_empty());
    assert_eq!(state.limiter.sends, vec![7]);
}

#[test]
fn the_loop_ends_on_failure_or_without_subscribers() {
    assert_eq!(after_tick(false, 0, 0), LoopStep::Continue);
    assert_eq!(after_tick(false, 0, 2), LoopStep::Continue);
    assert_eq!(after_tick(false, 2, 1), LoopStep::Continue);
    assert_eq!(after_tick(false, 2, 0), LoopStep::Stop);
    assert_eq!(after_tick(true, 2, 2), LoopStep::Stop);
    assert_eq!(after_tick(true, 0, 0), LoopStep::Stop);
    assert_eq!(after_tick(true, 1, 0), LoopStep::Stop);
}

#[test]
fn an_answer_moves_the_heartbeat_alone() {
    let mut state = BeatState::new(&test_settings());
    state.outbox.defer("held");
    state.limiter.record_at(3);
    answered(&mut state, HeartbeatState { heartbeat_count: 5 });
    assert_eq!(state.heartbeat.heartbeat_count, 5);
    assert_eq!(state.outbox.held.as_deref(), Some("held"));
    assert_eq!(state.limiter.sends, vec![3]);
}
