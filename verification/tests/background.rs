use lethe::actor::activity_log::ActivityKind;
use lethe::actor::background::{
    BackgroundNotification, BackgroundResult, DMN_ACTOR_NAME, QueueDmnHeartbeat, ensure_dmn_actor,
    format_dmn_heartbeat_message, handle_dmn_heartbeat, insight_title, queue_dmn_heartbeat_message, truncate,
};
use lethe::actor::collection::{ProcessedEvents, collect_observed_at, collect_user_notifications_from_events};
use lethe::actor::notification::{GateAction, NotificationCategory, NotificationGate, NotificationSource};
use lethe::actor::registry::{
    ActorConfig, ActorEvent, ActorNamedEvent, ActorRegistry, MessageIntent, ModelTier, PayloadValue,
};
use lethe::actor::review::{
    ReviewOutcome, apply_review, keep_reviewed, parse_review, review_document, review_reply, review_variables,
};
use lethe::actor::ActorError;
use lethe::clock::Timestamp;
use lethe::json::{JsonMember, Members, copy_members};

fn registry() -> (ActorRegistry, String) {
    let mut registry = ActorRegistry::new();
    let principal = registry.spawn(
        ActorConfig::new("cortex", "Serve user").in_group("main"),
        None,
        true,
    );
    (registry, principal)
}

fn text(value: &str) -> JsonMember {
    JsonMember::Text(value.to_string())
}

fn members(pairs: &[(&str, &str)]) -> Members {
    pairs
        .iter()
        .map(|(name, value)| (name.to_string(), text(value)))
        .collect()
}

fn copy_event(event: &ActorEvent) -> ActorEvent {
    ActorEvent {
        id: event.id.clone(),
        actor_id: event.actor_id.clone(),
        name: event.name.clone(),
        payload: event
            .payload
            .iter()
            .map(|(name, value)| {
                let value = match value {
                    PayloadValue::Plain(m) => PayloadValue::Plain(m.clone()),
                    PayloadValue::Members(m) => PayloadValue::Members(copy_members(m)),
                };
                (name.clone(), value)
            })
            .collect(),
    }
}

fn named_user_notify_events(registry: &ActorRegistry, limit: usize) -> Vec<ActorNamedEvent> {
    let mut events: Vec<ActorEvent> = registry
        .events()
        .iter()
        .filter(|event| event.name == "user_notify")
        .rev()
        .take(limit.max(1))
        .map(copy_event)
        .collect();
    events.reverse();
    events
        .into_iter()
        .map(|event| {
            let actor_name = registry
                .get(&event.actor_id)
                .map(|actor| actor.config.name.clone())
                .unwrap_or_else(|| event.actor_id.clone());
            ActorNamedEvent { event, actor_name }
        })
        .collect()
}

#[test]
fn dmn_actor_setup_is_idempotent_and_configured() {
    let (mut registry, principal) = registry();
    let first = ensure_dmn_actor(&mut registry, &principal).unwrap();
    let second = ensure_dmn_actor(&mut registry, &principal).unwrap();

    assert_eq!(first, second);
    let actor = registry.get(&first).unwrap();
    assert_eq!(actor.config.name, DMN_ACTOR_NAME);
    assert_eq!(actor.spawned_by, principal);
    assert_eq!(actor.config.model, Some(ModelTier::Aux));
    assert!(actor.config.persistent);
    assert!(actor.config.tools.contains(&"todo_list".to_string()));
}

#[test]
fn dmn_heartbeat_is_queued_to_inbox() {
    let (mut registry, principal) = registry();
    let dmn = ensure_dmn_actor(&mut registry, &principal).unwrap();
    let message_id = queue_dmn_heartbeat_message(
        &mut registry,
        &principal,
        &dmn,
        "heartbeat",
        "- [high] File permit",
    )
    .unwrap();

    let message = registry.pop_inbox(&dmn).unwrap();
    assert_eq!(message.id, message_id);
    assert_eq!(message.sender, principal);
    assert!(message.content.contains("Background heartbeat"));
    assert!(message.content.contains("File permit"));
}

#[test]
fn notification_collection_gates_and_marks_processed_events() {
    let (mut registry, principal) = registry();
    let dmn = ensure_dmn_actor(&mut registry, &principal).unwrap();
    registry
        .send_to(
            &dmn,
            &principal,
            "Permit letter deadline needs attention.",
            members(&[("signal_category", "reminder"), ("signal_urgency", "high")]),
            MessageIntent::Reminder,
        )
        .unwrap();

    registry
        .send_to(
            &dmn,
            &principal,
            "Routine reflection complete.",
            Vec::new(),
            MessageIntent::Info,
        )
        .unwrap();

    let mut gate = NotificationGate::new(900);
    let mut processed = ProcessedEvents::new();
    let notifications = collect_user_notifications_from_events(
        named_user_notify_events(&registry, 10),
        &mut gate,
        &mut processed,
    );

    assert_eq!(notifications.len(), 1);
    assert_eq!(notifications[0].signal.source, NotificationSource::Dmn);
    assert_eq!(
        notifications[0].signal.category,
        NotificationCategory::Reminder
    );
    assert!(notifications[0].user_message().contains("Permit letter"));
    assert!(collect_user_notifications_from_events(
        named_user_notify_events(&registry, 10),
        &mut gate,
        &mut processed,
    )
    .is_empty());
}

#[test]
fn gate_silenced_insights_are_collected_for_the_ledger_but_not_deliverable() {
    let (mut registry, principal) = registry();
    let dmn = ensure_dmn_actor(&mut registry, &principal).unwrap();
    registry
        .send_to(
            &dmn,
            &principal,
            "Your Meteora position fees doubled this week. Might be worth rebalancing.",
            members(&[("signal_category", "insight")]),
            MessageIntent::Info,
        )
        .unwrap();

    let mut gate = NotificationGate::new(900);
    let mut processed = ProcessedEvents::new();
    let notifications = collect_user_notifications_from_events(
        named_user_notify_events(&registry, 10),
        &mut gate,
        &mut processed,
    );

    // Insights default to low urgency, so the interruption gate drops them,
    // but they must still be collected for the ledger.
    assert_eq!(notifications.len(), 1);
    let insight = &notifications[0];
    assert!(insight.is_insight());
    assert!(!insight.is_deliverable());
    assert_eq!(insight.decision.action, GateAction::Drop);

    let entry = insight.ledger_entry();
    assert_eq!(entry.kind, ActivityKind::Insight);
    assert_eq!(entry.title, "Your Meteora position fees doubled this week");
    assert!(entry.summary.contains("worth rebalancing"));
    assert_eq!(entry.category.as_deref(), Some("insight"));
    assert_eq!(entry.urgency.as_deref(), Some("low"));
    assert_eq!(entry.source_name, "dmn");
    assert!(entry.event_id.is_some());

    // A replay of the same signal is a duplicate: dropped everywhere,
    // including the ledger path.
    registry
        .send_to(
            &dmn,
            &principal,
            "Your Meteora position fees doubled this week. Might be worth rebalancing.",
            members(&[("signal_category", "insight")]),
            MessageIntent::Info,
        )
        .unwrap();
    let replay = collect_user_notifications_from_events(
        named_user_notify_events(&registry, 10),
        &mut gate,
        &mut processed,
    );
    assert!(replay.is_empty());
}

fn event(id: &str, payload: Vec<(String, PayloadValue)>) -> ActorNamedEvent {
    ActorNamedEvent {
        event: ActorEvent {
            id: id.to_string(),
            actor_id: "actor-9".to_string(),
            name: "user_notify".to_string(),
            payload,
        },
        actor_name: "dmn".to_string(),
    }
}

fn warning(id: &str, message: &str) -> ActorNamedEvent {
    event(
        id,
        vec![
            ("message".to_string(), PayloadValue::Plain(text(message))),
            ("kind".to_string(), PayloadValue::Plain(text("warning"))),
        ],
    )
}

fn collect(events: Vec<ActorNamedEvent>, at: i64) -> Vec<BackgroundNotification> {
    collect_observed_at(
        &events,
        &mut NotificationGate::new(900),
        &mut ProcessedEvents::new(),
        Timestamp::new(at, 0).unwrap(),
    )
}

#[test]
fn events_without_words_are_skipped_and_count_as_processed() {
    let mut gate = NotificationGate::new(900);
    let mut processed = ProcessedEvents::new();
    let at = Timestamp::new(10, 0).unwrap();
    let events = vec![
        event("no-message", Vec::new()),
        event(
            "blank",
            vec![("message".to_string(), PayloadValue::Plain(text(" \n ")))],
        ),
        event(
            "number",
            vec![(
                "message".to_string(),
                PayloadValue::Plain(JsonMember::Number("3".to_string())),
            )],
        ),
        warning("real", "  Disk is full. "),
    ];
    let kept = collect_observed_at(&events, &mut gate, &mut processed, at);
    assert_eq!(kept.len(), 1);
    assert_eq!(kept[0].signal.content, "Disk is full.");
    assert_eq!(kept[0].signal.event_id, "real");
    assert_eq!(kept[0].signal.source_actor_id, "actor-9");
    assert!(kept[0].is_deliverable());
    for id in ["no-message", "blank", "number", "real"] {
        assert!(processed.contains(id));
        assert!(!processed.insert(id));
    }
    assert!(!processed.contains("other"));
}

#[test]
fn repetitions_are_dropped_until_the_window_is_over() {
    let mut gate = NotificationGate::new(900);
    let mut processed = ProcessedEvents::new();
    let mut run = |id: &str, at: i64| {
        collect_observed_at(
            &vec![warning(id, "Disk is full.")],
            &mut gate,
            &mut processed,
            Timestamp::new(at, 0).unwrap(),
        )
        .len()
    };
    assert_eq!(run("a", 1000), 1);
    assert_eq!(run("b", 1899), 0);
    assert_eq!(run("c", 1900), 1);
    assert_eq!(run("c", 9000), 0);
}

#[test]
fn information_is_dropped() {
    let events = vec![event(
        "i",
        vec![("message".to_string(), PayloadValue::Plain(text("All quiet.")))],
    )];
    assert!(collect(events, 5).is_empty());
}

#[test]
fn unknown_actors_are_refused() {
    let (mut registry, principal) = registry();
    assert_eq!(
        ensure_dmn_actor(&mut registry, "nobody"),
        Err(ActorError::NotFound("nobody".to_string()))
    );
    assert_eq!(
        queue_dmn_heartbeat_message(&mut registry, &principal, "nobody", "h", ""),
        Err(ActorError::NotFound("nobody".to_string()))
    );
    assert_eq!(
        handle_dmn_heartbeat(
            &mut registry,
            &QueueDmnHeartbeat {
                principal_id: "nobody".to_string(),
                heartbeat_message: "h".to_string(),
                reminders: String::new(),
            }
        ),
        Err(ActorError::NotFound("nobody".to_string()))
    );
    assert!(registry.pop_inbox("nobody").is_none());
    assert!(registry.events().is_empty());
}

#[test]
fn heartbeat_request_sets_up_and_reaches_the_background_actor() {
    let (mut registry, principal) = registry();
    let request = QueueDmnHeartbeat {
        principal_id: principal.clone(),
        heartbeat_message: " beat ".to_string(),
        reminders: "  ".to_string(),
    };
    let dmn = handle_dmn_heartbeat(&mut registry, &request).unwrap();
    assert_eq!(handle_dmn_heartbeat(&mut registry, &request).unwrap(), dmn);
    assert_eq!(registry.find_by_name("dmn", "main").unwrap().id, dmn);
    assert!(registry.find_by_name("dmn", "other").is_none());
    let message = registry.pop_inbox(&dmn).unwrap();
    assert_eq!(
        message.content,
        "[Background heartbeat]\n\nReflect quietly. Use user_notify only for items that deserve user attention.\n\nHeartbeat context:\nbeat"
    );
    assert_eq!(
        message.metadata,
        members(&[("source", "background_heartbeat"), ("kind", "heartbeat")])
    );
    assert_eq!(message.intent, MessageIntent::Message);
    assert!(registry.pop_inbox(&dmn).is_some());
    assert!(registry.pop_inbox(&dmn).is_none());
    // Only messages to a principal notify the user.
    assert!(registry.events().is_empty());
}

#[test]
fn ids_are_never_given_twice() {
    let (mut registry, principal) = registry();
    let a = registry.spawn(ActorConfig::new("a", "").in_group("main"), Some(&principal), false);
    let b = registry.spawn(ActorConfig::new("a", "").in_group("main"), Some(&principal), false);
    assert_ne!(a, b);
    let m = registry.send_to(&a, &b, "x", Vec::new(), MessageIntent::Message).unwrap();
    let n = registry.send_to(&a, &b, "x", Vec::new(), MessageIntent::Message).unwrap();
    assert_ne!(m, n);
    assert_eq!(registry.get(&a).unwrap().id, a);
    assert_eq!(registry.get(&b).unwrap().inbox.len(), 2);
    // Three actors, and two ids for each message.
    assert_eq!(registry.issued(), 7);
}

#[test]
fn heartbeat_sections_are_capped() {
    let long: String = "x".repeat(1201);
    let message = format_dmn_heartbeat_message(&long, &"y".repeat(800));
    let expected = format!(
        "[Background heartbeat]\n\nReflect quietly. Use user_notify only for items that deserve user attention.\n\nHeartbeat context:\n{}\n...[truncated]\n\nActive reminders:\n{}",
        "x".repeat(1200),
        "y".repeat(800)
    );
    assert_eq!(message, expected);
    assert_eq!(truncate("abc", 3), "abc");
    assert_eq!(truncate("abcd", 3), "abc\n...[truncated]");
}

#[test]
fn titles_are_first_sentences() {
    assert_eq!(insight_title("Hello there! More."), "Hello there");
    assert_eq!(insight_title("No end"), "No end");
    assert_eq!(insight_title(""), "");
    assert_eq!(insight_title("Wait... what?"), "Wait");
    assert_eq!(insight_title(&"a".repeat(70)), format!("{}…", "a".repeat(64)));
}

#[test]
fn blank_messages_do_not_reach_the_user() {
    let mut notifications = collect(vec![warning("a", "One."), warning("b", "Two.")], 3);
    assert_eq!(notifications.len(), 2);
    notifications[0].signal.content = "  ".to_string();
    notifications[1].signal.content = " Two. ".to_string();
    let result = BackgroundResult {
        dmn_actor_id: None,
        curator: None,
        notifications,
    };
    assert_eq!(result.user_messages(), vec!["Two.".to_string()]);
}

#[test]
fn results_are_copied_and_compared() {
    let nothing = BackgroundResult::default();
    assert_eq!(nothing.dmn_actor_id, None);
    assert_eq!(nothing.curator, None);
    assert!(nothing.notifications.is_empty());
    let result = BackgroundResult {
        dmn_actor_id: Some("dmn-1".to_string()),
        curator: None,
        notifications: collect(vec![warning("a", "One."), warning("b", "Two.")], 3),
    };
    let mut copy = result.clone();
    assert_eq!(copy, result);
    assert_ne!(copy, nothing);
    copy.notifications[1].signal.content = "Three.".to_string();
    assert_ne!(copy, result);
    assert_eq!(copy.notifications[0], result.notifications[0]);
    assert_ne!(copy.notifications[1], result.notifications[1]);
}

#[test]
fn review_answers_are_read() {
    let send = |t: &str| ReviewOutcome::Send(t.to_string());
    let drop = |t: &str| ReviewOutcome::Drop(t.to_string());
    assert_eq!(
        parse_review("Sure: {\"send\": true, \"text\": \" Pay rent. \"} ok"),
        send("Pay rent.")
    );
    assert_eq!(
        parse_review("{\"send\": false, \"text\": \"x\"}"),
        drop("review gate said send=false")
    );
    assert_eq!(
        parse_review("{\"send\": \"true\", \"text\": \"x\"}"),
        drop("review gate said send=false")
    );
    assert_eq!(
        parse_review("{\"text\": \"x\"}"),
        drop("review gate said send=false")
    );
    assert_eq!(
        parse_review("{\"send\": true, \"text\": \"  \"}"),
        drop("review gate returned empty text")
    );
    assert_eq!(
        parse_review("{\"send\": true, \"text\": 7}"),
        drop("review gate returned empty text")
    );
    assert_eq!(parse_review(" no "), drop("non-JSON review response: no"));
    assert_eq!(parse_review("} {"), drop("non-JSON review response: } {"));
    let broken = serde_json::from_str::<serde_json::Value>("{x}").unwrap_err().to_string();
    assert_eq!(
        parse_review("a {x} b"),
        drop(&format!("review JSON parse error: {broken}"))
    );
    assert_eq!(
        review_reply(&Err("timeout".to_string())),
        drop("llm review failed: timeout")
    );
    assert_eq!(
        review_reply(&Ok("{\"send\":true,\"text\":\"t\"}".to_string())),
        send("t")
    );
    assert_eq!(
        review_document(Err("e".to_string())),
        drop("review JSON parse error: e")
    );
}

#[test]
fn reviews_drop_or_reword() {
    let mut kept = collect(vec![warning("a", "One."), warning("b", "Two."), warning("c", "Three.")], 3);
    assert_eq!(kept.len(), 3);
    let last = kept.pop().unwrap();
    let kept = keep_reviewed(
        kept,
        &vec![
            ReviewOutcome::Drop("no".to_string()),
            ReviewOutcome::Send(" Better. ".to_string()),
        ],
    );
    assert_eq!(kept.len(), 1);
    assert_eq!(kept[0].signal.event_id, "b");
    assert_eq!(kept[0].signal.content, "Better.");
    assert_eq!(
        apply_review(last, &ReviewOutcome::Send("  ".to_string()))
            .unwrap()
            .signal
            .content,
        "Three."
    );
}

#[test]
fn review_prompt_variables() {
    let one = collect(vec![warning("a", "One.")], 3).pop().unwrap();
    assert_eq!(
        review_variables(&one, " \n"),
        vec![
            ("signal".to_string(), "One.".to_string()),
            ("context".to_string(), "(no recent context)".to_string()),
        ]
    );
    assert_eq!(review_variables(&one, " talk ")[1].1, " talk ");
}
