use lethe::actor::activity_log::{ActivityKind, ActivityLog, ActivityRow, LedgerRow, NewActivity, compact_summary, sql_error};
use lethe::actor::ActorError;
use lethe::clock::Timestamp;

fn entry(kind: ActivityKind, title: &str, event_id: Option<&str>) -> NewActivity {
    NewActivity {
        kind,
        actor_id: Some("actor-1".to_string()),
        event_id: event_id.map(str::to_string),
        title: title.to_string(),
        summary: format!("{title} summary"),
        detail: Some(format!("{title} detail")),
        category: Some("insight".to_string()),
        urgency: Some("low".to_string()),
        source_name: "dmn".to_string(),
        produced_at: Timestamp::now(),
    }
}

fn fresh() -> ActivityLog {
    ActivityLog::open("ledger.db".to_string(), Vec::new(), 0).unwrap()
}

fn stored(id: i64, event_id: Option<&str>) -> LedgerRow {
    LedgerRow {
        row: ActivityRow {
            id,
            kind: "insight".to_string(),
            actor_id: None,
            title: "t".to_string(),
            summary: "s".to_string(),
            detail: None,
            category: None,
            urgency: None,
            source_name: "dmn".to_string(),
            produced_at: "2026-01-02T03:04:05+00:00".to_string(),
            seen_at: None,
        },
        event_id: event_id.map(str::to_string),
    }
}

#[test]
fn append_list_and_seen_state_round_trip() {
    let mut log = fresh();

    let first = log
        .append(&entry(ActivityKind::Insight, "First insight", Some("ev-1")))
        .unwrap()
        .expect("row inserted");
    let second = log
        .append(&entry(ActivityKind::Activity, "Task done", None))
        .unwrap()
        .expect("row inserted");

    assert_eq!(log.unseen_count(None), 2);
    assert_eq!(log.unseen_count(Some(ActivityKind::Insight)), 1);

    let rows = log.list(10, None);
    assert_eq!(rows.len(), 2);
    // Newest first.
    assert_eq!(rows[0].id, second);
    assert_eq!(rows[1].id, first);
    assert_eq!(rows[1].title, "First insight");
    assert!(rows[1].seen_at.is_none());

    assert_eq!(log.mark_seen(&[first]), 1);
    assert_eq!(log.unseen_count(Some(ActivityKind::Insight)), 0);
    assert_eq!(log.unseen_count(None), 1);
    // Re-marking does not rewrite the original seen_at.
    assert_eq!(log.mark_seen(&[first]), 0);

    let detail = log.get(first).expect("row exists");
    assert!(detail.seen_at.is_some());
    assert_eq!(detail.summary, "First insight summary");
}

#[test]
fn event_id_deduplicates_retries() {
    let mut log = fresh();

    let inserted = log
        .append(&entry(ActivityKind::Insight, "Once", Some("ev-dup")))
        .unwrap();
    assert!(inserted.is_some());
    let replay = log
        .append(&entry(ActivityKind::Insight, "Once again", Some("ev-dup")))
        .unwrap();
    assert!(replay.is_none(), "same event id must not double-log");
    assert_eq!(log.list(10, None).len(), 1);

    // Missing event ids never collide with each other.
    assert!(log
        .append(&entry(ActivityKind::Activity, "No id 1", None))
        .unwrap()
        .is_some());
    assert!(log
        .append(&entry(ActivityKind::Activity, "No id 2", None))
        .unwrap()
        .is_some());
}

#[test]
fn mark_all_seen_clears_by_kind_and_survives_reopen() {
    let path = "ledger.db".to_string();
    let (rows, sequence) = {
        let mut log = ActivityLog::open(path.clone(), Vec::new(), 0).unwrap();
        log.append(&entry(ActivityKind::Insight, "I1", Some("e1"))).unwrap();
        log.append(&entry(ActivityKind::Insight, "I2", Some("e2"))).unwrap();
        log.append(&entry(ActivityKind::Activity, "A1", None)).unwrap();
        assert_eq!(log.mark_all_seen(Some(ActivityKind::Insight)), 2);
        log.into_parts()
    };
    // Persistence across a process restart is the whole point.
    let reopened = ActivityLog::open(path, rows, sequence).unwrap();
    assert_eq!(reopened.unseen_count(None), 1);
    assert_eq!(reopened.unseen_count(Some(ActivityKind::Insight)), 0);
    assert_eq!(reopened.list(10, None).len(), 3);

    // Paging: before_id walks backwards.
    let page = reopened.list(1, None);
    let next = reopened.list(10, Some(page[0].id));
    assert_eq!(next.len(), 2);
    assert!(next.iter().all(|row| row.id < page[0].id));
}

#[test]
fn reopened_ledger_keeps_its_path_and_its_rows() {
    let log = ActivityLog::open("a/b.db".to_string(), vec![stored(2, Some("x")), stored(7, None)], 7).unwrap();
    assert_eq!(log.db_path(), "a/b.db");
    assert_eq!(log.rows().len(), 2);
    assert_eq!(log.rows()[1], stored(7, None));
    let mut log = log;
    // Ids go on from the newest row, and recorded events stay recorded.
    assert_eq!(log.append(&entry(ActivityKind::Activity, "next", None)).unwrap(), Some(8));
    assert_eq!(log.append(&entry(ActivityKind::Activity, "again", Some("x"))).unwrap(), None);
    assert_eq!(log.append(&entry(ActivityKind::Activity, "behind", None)).unwrap(), Some(10));
}

#[test]
fn rows_that_are_no_ledger_are_refused() {
    for rows in vec![
        vec![stored(3, None), stored(3, None)],
        vec![stored(3, None), stored(2, None)],
        vec![stored(1, Some("e")), stored(2, Some("e"))],
    ] {
        assert_eq!(
            ActivityLog::open("p".to_string(), rows, 9).err(),
            Some(ActorError::Runtime(
                "activity log: stored rows are out of order".to_string()
            ))
        );
    }
}

#[test]
fn the_last_id_is_the_end_of_the_ledger() {
    let mut log = ActivityLog::open("p".to_string(), vec![stored(i64::MAX, Some("e"))], 0).unwrap();
    assert_eq!(
        log.append(&entry(ActivityKind::Activity, "one too many", None)),
        Err(ActorError::Runtime(
            "activity log: database or disk is full".to_string()
        ))
    );
    assert_eq!(log.rows().len(), 1);
    assert!(log.append(&entry(ActivityKind::Insight, "again", Some("e"))).is_err());
    assert_eq!(log.sequence(), 0);

    let mut used_up = ActivityLog::open("p".to_string(), Vec::new(), i64::MAX).unwrap();
    assert!(used_up.append(&entry(ActivityKind::Activity, "one too many", None)).is_err());
    assert!(used_up.rows().is_empty());
    let mut nearly = ActivityLog::open("p".to_string(), Vec::new(), i64::MAX - 1).unwrap();
    assert_eq!(nearly.append(&entry(ActivityKind::Activity, "last", None)), Ok(Some(i64::MAX)));
    assert!(nearly.append(&entry(ActivityKind::Activity, "one too many", None)).is_err());
}

#[test]
fn an_ignored_append_uses_up_an_id() {
    let mut log = fresh();
    assert_eq!(log.append(&entry(ActivityKind::Insight, "e", Some("e"))), Ok(Some(1)));
    assert_eq!(log.append(&entry(ActivityKind::Insight, "e", Some("e"))), Ok(None));
    assert_eq!(log.sequence(), 2);
    assert_eq!(log.rows().len(), 1);
    assert_eq!(log.append(&entry(ActivityKind::Activity, "none", None)), Ok(Some(3)));
    let ids: Vec<i64> = log.list(10, None).iter().map(|row| row.id).collect();
    assert_eq!(ids, vec![3, 1]);
    assert_eq!(log.get(2), None);
}

#[test]
fn ids_go_on_behind_the_stored_sequence() {
    for (ids, sequence, next) in [
        (vec![], 0, 1),
        (vec![], 9, 10),
        (vec![], -3, 1),
        (vec![2], 9, 10),
        (vec![2], 2, 3),
        (vec![12], 9, 13),
        (vec![-5], 0, 1),
        (vec![-5], -9, -4),
    ] {
        let rows = ids.into_iter().map(|id| stored(id, None)).collect();
        let mut log = ActivityLog::open("p".to_string(), rows, sequence).unwrap();
        assert_eq!(log.append(&entry(ActivityKind::Activity, "next", None)), Ok(Some(next)));
        assert_eq!(log.sequence(), next);
    }
}

#[test]
fn rows_with_ids_below_one_are_served() {
    let mut log = ActivityLog::open("p".to_string(), vec![stored(-4, Some("e")), stored(0, None)], 0).unwrap();
    assert_eq!(log.unseen_count(None), 2);
    assert_eq!(log.get(-4), Some(stored(-4, None).row));
    assert_eq!(log.append(&entry(ActivityKind::Insight, "e", Some("e"))), Ok(None));
    assert_eq!(log.append(&entry(ActivityKind::Activity, "next", None)), Ok(Some(2)));
    assert_eq!(log.mark_seen_at(&[-4, 1], "now"), 1);
    let ids: Vec<i64> = log.list(10, None).iter().map(|row| row.id).collect();
    assert_eq!(ids, vec![2, 0, -4]);
    assert_eq!(log.list(10, Some(0)).len(), 1);
}

#[test]
fn ids_are_those_that_an_autoincrement_key_gives() {
    let database = rusqlite::Connection::open_in_memory().unwrap();
    database
        .execute_batch("CREATE TABLE t (id INTEGER PRIMARY KEY AUTOINCREMENT, event_id TEXT UNIQUE)")
        .unwrap();
    let mut log = fresh();
    for event_id in [Some("a"), Some("a"), None, Some("b"), Some("a"), Some("b"), None, None, Some("c")] {
        let inserted = database
            .execute("INSERT OR IGNORE INTO t (event_id) VALUES (?1)", (event_id,))
            .unwrap();
        let id = if inserted == 0 {
            None
        } else {
            Some(database.last_insert_rowid())
        };
        assert_eq!(log.append(&entry(ActivityKind::Insight, "x", event_id)), Ok(id));
        let sequence: i64 = database
            .query_row("SELECT seq FROM sqlite_sequence WHERE name = 't'", (), |row| row.get(0))
            .unwrap();
        assert_eq!(log.sequence(), sequence);
    }
}

#[test]
fn a_copied_ledger_goes_its_own_way() {
    let mut log = fresh();
    let new = entry(ActivityKind::Insight, "a", Some("a"));
    log.append(&new.clone()).unwrap();
    let copy = log.clone();
    log.mark_all_seen_at(None, "now");
    log.append(&new).unwrap();
    assert_eq!(copy.unseen_count(None), 1);
    assert_eq!(copy.db_path(), "ledger.db");
    assert_eq!(copy.sequence(), 1);
    assert_eq!(copy.rows()[0].row.title, "a");
    assert_eq!(copy.rows()[0].event_id.as_deref(), Some("a"));
}

#[test]
fn appended_row_holds_what_the_entry_held() {
    let mut log = fresh();
    let mut new = entry(ActivityKind::Activity, "T", Some("ev"));
    new.produced_at = Timestamp::new(1_700_000_000, 0).unwrap();
    let id = log.append(&new).unwrap().unwrap();
    assert_eq!(id, 1);
    let row = log.get(id).unwrap();
    assert_eq!(row.kind, "activity");
    assert_eq!(row.actor_id.as_deref(), Some("actor-1"));
    assert_eq!(row.title, "T");
    assert_eq!(row.summary, "T summary");
    assert_eq!(row.detail.as_deref(), Some("T detail"));
    assert_eq!(row.category.as_deref(), Some("insight"));
    assert_eq!(row.urgency.as_deref(), Some("low"));
    assert_eq!(row.source_name, "dmn");
    assert_eq!(row.produced_at, "2023-11-14T22:13:20+00:00");
    assert_eq!(row.seen_at, None);
    assert_eq!(log.get(2), None);
    assert_eq!(log.get(0), None);
}

#[test]
fn first_seen_at_is_kept() {
    let mut log = fresh();
    for title in ["a", "b", "c"] {
        log.append(&entry(ActivityKind::Insight, title, None)).unwrap();
    }
    assert_eq!(log.mark_seen_at(&[2, 2, 9], "first"), 1);
    assert_eq!(log.mark_seen_at(&[], "never"), 0);
    assert_eq!(log.mark_all_seen_at(Some(ActivityKind::Activity), "wrong kind"), 0);
    assert_eq!(log.mark_all_seen_at(None, "second"), 2);
    assert_eq!(log.get(1).unwrap().seen_at.as_deref(), Some("second"));
    assert_eq!(log.get(2).unwrap().seen_at.as_deref(), Some("first"));
    assert_eq!(log.unseen_count(None), 0);
}

#[test]
fn marking_now_writes_the_clock_in_rfc_3339() {
    let mut log = fresh();
    log.append(&entry(ActivityKind::Insight, "a", None)).unwrap();
    log.mark_all_seen(None);
    let seen = log.get(1).unwrap().seen_at.unwrap();
    assert!(chrono::DateTime::parse_from_rfc3339(&seen).is_ok());
    assert!(seen.ends_with("+00:00"));
}

#[test]
fn pages_cover_the_ledger_without_overlap() {
    let mut log = fresh();
    for i in 0..7 {
        log.append(&entry(ActivityKind::Activity, &format!("{i}"), None)).unwrap();
    }
    let mut seen = Vec::new();
    let mut before = None;
    loop {
        let page = log.list(3, before);
        if page.is_empty() {
            break;
        }
        before = Some(page[page.len() - 1].id);
        seen.extend(page.iter().map(|row| row.id));
    }
    assert_eq!(seen, vec![7, 6, 5, 4, 3, 2, 1]);
}

#[test]
fn kinds_and_their_names() {
    assert_eq!(ActivityKind::Insight.as_str(), "insight");
    assert_eq!(ActivityKind::Activity.as_str(), "activity");
    assert_eq!(ActivityKind::parse("insight"), Some(ActivityKind::Insight));
    assert_eq!(ActivityKind::parse("activity"), Some(ActivityKind::Activity));
    assert_eq!(ActivityKind::parse("Insight"), None);
    assert_eq!(ActivityKind::parse(""), None);
}

#[test]
fn summaries_are_one_capped_line() {
    assert_eq!(compact_summary("  a \n\n b\tc ", 64), "a b c");
    assert_eq!(compact_summary("one two three", 7), "one two…");
    assert_eq!(compact_summary("one two", 7), "one two");
    assert_eq!(compact_summary("", 7), "");
    assert_eq!(compact_summary("ab", 0), "…");
    assert_eq!(compact_summary("a\u{a0}\u{3000}b", 9), "a b");
}

#[test]
fn storage_failures_are_put_in_words() {
    assert_eq!(
        sql_error("disk I/O error"),
        ActorError::Runtime("activity log: disk I/O error".to_string())
    );
}
