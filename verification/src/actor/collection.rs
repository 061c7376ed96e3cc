//! Turning actor events into notifications: each event once, through scoring
//! and the notification gate.
use vstd::prelude::*;
use vstd::string::*;

use crate::actor::background::BackgroundNotification;
use crate::actor::background::BackgroundNotificationView;
use crate::actor::notification;
use crate::actor::notification::GateAction;
use crate::actor::notification::GateDecisionView;
use crate::actor::notification::GateView;
use crate::actor::notification::NotificationCategory;
use crate::actor::notification::NotificationGate;
use crate::actor::notification::NotificationScoring;
use crate::actor::notification::SignalView;
use crate::actor::notification::UserNotificationSignal;
use crate::actor::registry::ActorNamedEvent;
use crate::actor::registry::ActorNamedEventView;
use crate::actor::registry::PayloadValue;
use crate::actor::registry::PayloadValueView;
use crate::clock;
use crate::clock::Timestamp;
use crate::json;
use crate::json::JsonMember;
use crate::json::JsonMemberView;
use crate::json::MembersView;
use crate::json::copy_members;
use crate::json::find_member;
use crate::text;
use crate::text::same_text;
use crate::text::trim;

verus! {

/// The ids of the events that were processed.
#[derive(Debug)]
pub struct ProcessedEvents {
    ids: Vec<String>,
}

impl View for ProcessedEvents {
    type V = Set<Seq<char>>;

    closed spec fn view(&self) -> Set<Seq<char>> {
        text::views(self.ids@).to_set()
    }
}

impl ProcessedEvents {
    /// No event was processed.
    pub fn new() -> (r: ProcessedEvents)
        ensures
            r@ == Set::<Seq<char>>::empty(),
    {
        let r = ProcessedEvents { ids: Vec::new() };
        assert(text::views(r.ids@) =~= Seq::empty());
        assert(r@ =~= Set::empty());
        r
    }

    /// Whether the event with this id was processed.
    pub fn contains(&self, id: &str) -> (r: bool)
        ensures
            r == self@.contains(id@),
    {
        let ghost all = text::views(self.ids@);
        let mut i: usize = 0;
        while i < self.ids.len()
            invariant
                i <= self.ids.len(),
                all == text::views(self.ids@),
                forall|k: int| 0 <= k < i ==> all[k] != id@,
            decreases self.ids.len() - i,
        {
            assert(all[i as int] == self.ids@[i as int]@);
            if same_text(self.ids[i].as_str(), id) {
                assert(all.contains(id@));
                return true;
            }
            i = i + 1;
        }
        assert(!all.contains(id@));
        false
    }

    /// Notes that an event was processed. Returns whether that is new.
    pub fn insert(&mut self, id: &str) -> (r: bool)
        ensures
            r == !old(self)@.contains(id@),
            final(self)@ == old(self)@.insert(id@),
    {
        let known = self.contains(id);
        if known {
            assert(self@ =~= self@.insert(id@));
            false
        } else {
            let ghost all = text::views(self.ids@);
            let copy = id.to_owned();
            proof {
                text::lemma_views_push(self.ids@, copy);
            }
            self.ids.push(copy);
            assert forall|t: Seq<char>| #[trigger] self@.contains(t) <==> old(self)@.insert(
                id@,
            ).contains(t) by {
                let now = all.push(id@);
                assert(now[all.len() as int] == id@);
                if all.contains(t) {
                    let k = choose|k: int| 0 <= k < all.len() && all[k] == t;
                    assert(now[k] == t);
                }
            }
            assert(self@ =~= old(self)@.insert(id@));
            true
        }
    }
}

/// The text in an event's payload under this name.
pub open spec fn payload_text(
    payload: Seq<(Seq<char>, PayloadValueView)>,
    name: Seq<char>,
) -> Option<Seq<char>> {
    match json::member(payload, name) {
        Some(PayloadValueView::Plain(JsonMemberView::Text(t))) => Some(t),
        _ => None,
    }
}

/// The object in an event's payload under this name; an empty one when there
/// is none.
pub open spec fn payload_members(
    payload: Seq<(Seq<char>, PayloadValueView)>,
    name: Seq<char>,
) -> MembersView {
    match json::member(payload, name) {
        Some(PayloadValueView::Members(m)) => m,
        _ => Seq::empty(),
    }
}

/// The signal that an event carries: none when it has no message or a blank
/// one. The kind is `info` unless the payload names one.
pub open spec fn event_signal(named: ActorNamedEventView, now: (i64, u32)) -> Option<SignalView> {
    let payload = named.event.payload;
    match payload_text(payload, "message"@) {
        Some(message) => if text::blank(message) {
            None
        } else {
            Some(
                notification::signal_of(
                    named.event.id,
                    named.actor_name,
                    named.event.actor_id,
                    match payload_text(payload, "kind"@) {
                        Some(kind) => kind,
                        None => "info"@,
                    },
                    text::trimmed(message),
                    payload_members(payload, "metadata"@),
                    now,
                ),
            )
        },
        None => None,
    }
}

/// Whether a notification is collected. Review-worthy candidates pass
/// through; so do insights that the notification gate silenced as interruptions, for the
/// ledger. Duplicates stay dropped everywhere.
pub open spec fn worth_keeping(signal: SignalView, decision: GateDecisionView) -> bool {
    ||| decision.action == GateAction::Review
    ||| signal.category == NotificationCategory::Insight && decision.reason != "duplicate_signal"@
}

/// Where collection stands: the notification gate, the processed events, and what was kept
/// so far.
pub struct Collected {
    pub gate: GateView,
    pub processed: Set<Seq<char>>,
    pub kept: Seq<BackgroundNotificationView>,
}

/// What the notification gate makes of a signal.
pub open spec fn judged(gate: GateView, signal: SignalView) -> BackgroundNotificationView {
    BackgroundNotificationView {
        signal,
        assessment: notification::assessment_of(signal),
        decision: notification::decision_of(gate, signal, notification::assessment_of(signal)),
    }
}

/// Collection after one more event: an event that was processed before
/// changes nothing, one without a signal is only noted.
pub open spec fn collect_one(
    state: Collected,
    named: ActorNamedEventView,
    now: (i64, u32),
) -> Collected {
    if state.processed.contains(named.event.id) {
        state
    } else {
        let processed = state.processed.insert(named.event.id);
        match event_signal(named, now) {
            None => Collected { processed, ..state },
            Some(signal) => {
                let n = judged(state.gate, signal);
                Collected {
                    gate: notification::gate_after(state.gate, signal),
                    processed,
                    kept: if worth_keeping(signal, n.decision) {
                        state.kept.push(n)
                    } else {
                        state.kept
                    },
                }
            },
        }
    }
}

/// Collection after all the events, in order.
pub open spec fn collect_all(
    state: Collected,
    events: Seq<ActorNamedEventView>,
    now: (i64, u32),
) -> Collected
    decreases events.len(),
{
    if events.len() == 0 {
        state
    } else {
        collect_one(collect_all(state, events.drop_last(), now), events.last(), now)
    }
}

fn text_in<'a>(payload: &'a Vec<(String, PayloadValue)>, name: &str) -> (r: Option<&'a str>)
    ensures
        match r {
            Some(t) => payload_text(text::views(payload@), name@) == Some(t@),
            None => payload_text(text::views(payload@), name@) is None,
        },
{
    match find_member(payload, name) {
        Some(PayloadValue::Plain(JsonMember::Text(t))) => Some(t.as_str()),
        _ => None,
    }
}

/// The signal that an event carries, if it carries one.
pub fn signal_from_event(named: &ActorNamedEvent, observed_at: Timestamp) -> (r: Option<
    UserNotificationSignal,
>)
    ensures
        text::opt_view(r) == event_signal(named@, observed_at@),
{
    let payload = &named.event.payload;
    let content = match text_in(payload, "message") {
        Some(message) => {
            proof {
                text::lemma_trimmed_empty(message@);
            }
            trim(message)
        },
        None => return None,
    };
    if content.is_empty() {
        return None;
    }
    let kind = match text_in(payload, "kind") {
        Some(kind) => kind,
        None => "info",
    };
    let metadata = match find_member(payload, "metadata") {
        Some(PayloadValue::Members(m)) => copy_members(m),
        _ => Vec::new(),
    };
    assert(text::views(metadata@) =~= payload_members(text::views(payload@), "metadata"@));
    Some(
        UserNotificationSignal::new(
            named.event.id.clone(),
            named.actor_name.clone(),
            named.event.actor_id.clone(),
            kind,
            content.to_owned(),
            metadata,
            observed_at,
        ),
    )
}

/// Collects the notifications that the events carry, taking them to be
/// observed at one instant.
pub fn collect_observed_at(
    events: &Vec<ActorNamedEvent>,
    gate: &mut NotificationGate,
    processed_event_ids: &mut ProcessedEvents,
    observed_at: Timestamp,
) -> (r: Vec<BackgroundNotification>)
    ensures
        (Collected {
            gate: final(gate)@,
            processed: final(processed_event_ids)@,
            kept: text::views(r@),
        }) == collect_all(
            Collected {
                gate: old(gate)@,
                processed: old(processed_event_ids)@,
                kept: Seq::empty(),
            },
            text::views(events@),
            observed_at@,
        ),
{
    let ghost start = Collected {
        gate: gate@,
        processed: processed_event_ids@,
        kept: Seq::empty(),
    };
    let ghost all = text::views(events@);
    let scoring = NotificationScoring;
    let mut notifications: Vec<BackgroundNotification> = Vec::new();
    let mut i: usize = 0;
    assert(all.take(0) =~= Seq::empty());
    assert(text::views(notifications@) =~= Seq::empty());
    while i < events.len()
        invariant
            i <= events.len(),
            all == text::views(events@),
            (Collected {
                gate: gate@,
                processed: processed_event_ids@,
                kept: text::views(notifications@),
            }) == collect_all(start, all.take(i as int), observed_at@),
        decreases events.len() - i,
    {
        let named = &events[i];
        assert(all.take(i + 1).drop_last() =~= all.take(i as int));
        assert(all.take(i + 1).last() == named@);
        if processed_event_ids.insert(named.event.id.as_str()) {
            if let Some(signal) = signal_from_event(named, observed_at) {
                let assessment = scoring.assess(&signal);
                let decision = gate.decide(&signal, &assessment);
                let keep = decision.action == GateAction::Review || (signal.category
                    == NotificationCategory::Insight && !same_text(
                    decision.reason.as_str(),
                    "duplicate_signal",
                ));
                if keep {
                    let n = BackgroundNotification { signal, assessment, decision };
                    proof {
                        text::lemma_views_push(notifications@, n);
                    }
                    notifications.push(n);
                }
            }
        } else {
            assert(processed_event_ids@ =~= collect_all(
                start,
                all.take(i as int),
                observed_at@,
            ).processed);
        }
        i = i + 1;
    }
    assert(all.take(all.len() as int) =~= all);
    notifications
}

/// Collects the notifications that the events carry. Each event counts once;
/// what is kept may interrupt the user or goes to the ledger alone.
pub fn collect_user_notifications_from_events(
    events: Vec<ActorNamedEvent>,
    gate: &mut NotificationGate,
    processed_event_ids: &mut ProcessedEvents,
) -> (r: Vec<BackgroundNotification>)
    ensures
        exists|now: (i64, u32)|
            clock::rfc3339_text(now.0, now.1) is Some && (Collected {
                gate: final(gate)@,
                processed: final(processed_event_ids)@,
                kept: text::views(r@),
            }) == #[trigger] collect_all(
                Collected {
                    gate: old(gate)@,
                    processed: old(processed_event_ids)@,
                    kept: Seq::empty(),
                },
                text::views(events@),
                now,
            ),
{
    let now = Timestamp::now();
    collect_observed_at(&events, gate, processed_event_ids, now)
}

proof fn lemma_processed(
    state: Collected,
    events: Seq<ActorNamedEventView>,
    now: (i64, u32),
)
    ensures
        forall|id: Seq<char>|
            #[trigger] collect_all(state, events, now).processed.contains(id) <==> {
                ||| state.processed.contains(id)
                ||| exists|i: int| 0 <= i < events.len() && (#[trigger] events[i]).event.id == id
            },
    decreases events.len(),
{
    if events.len() > 0 {
        let rest = events.drop_last();
        let before = collect_all(state, rest, now);
        lemma_processed(state, rest, now);
        assert forall|id: Seq<char>|
            #[trigger] collect_all(state, events, now).processed.contains(id) <==> {
                ||| state.processed.contains(id)
                ||| exists|i: int| 0 <= i < events.len() && (#[trigger] events[i]).event.id == id
            } by {
            assert(before.processed.contains(id) <==> {
                ||| state.processed.contains(id)
                ||| exists|i: int| 0 <= i < rest.len() && (#[trigger] rest[i]).event.id == id
            });
            if exists|i: int| 0 <= i < rest.len() && (#[trigger] rest[i]).event.id == id {
                let i = choose|i: int| 0 <= i < rest.len() && (#[trigger] rest[i]).event.id == id;
                assert(events[i].event.id == id);
            }
            if exists|i: int| 0 <= i < events.len() && (#[trigger] events[i]).event.id == id {
                let i = choose|i: int|
                    0 <= i < events.len() && (#[trigger] events[i]).event.id == id;
                if i < rest.len() {
                    assert(rest[i].event.id == id);
                }
            }
        }
    }
}

proof fn lemma_nothing_new(
    state: Collected,
    events: Seq<ActorNamedEventView>,
    now: (i64, u32),
)
    requires
        forall|i: int|
            0 <= i < events.len() ==> state.processed.contains((#[trigger] events[i]).event.id),
    ensures
        collect_all(state, events, now) == state,
    decreases events.len(),
{
    if events.len() > 0 {
        let rest = events.drop_last();
        assert forall|i: int| 0 <= i < rest.len() implies state.processed.contains(
            (#[trigger] rest[i]).event.id,
        ) by {
            assert(rest[i] == events[i]);
        }
        lemma_nothing_new(state, rest, now);
    }
}

/// Every event counts once: collecting the same events again, at any time,
/// brings nothing and leaves the notification gate as it is.
pub proof fn law_events_count_once(
    state: Collected,
    events: Seq<ActorNamedEventView>,
    first: (i64, u32),
    second: (i64, u32),
)
    ensures
        ({
            let after = collect_all(state, events, first);
            &&& forall|i: int|
                0 <= i < events.len() ==> after.processed.contains(
                    (#[trigger] events[i]).event.id,
                )
            &&& collect_all(after, events, second) == after
        }),
{
    let after = collect_all(state, events, first);
    lemma_processed(state, events, first);
    assert forall|i: int| 0 <= i < events.len() implies after.processed.contains(
        (#[trigger] events[i]).event.id,
    ) by {}
    lemma_nothing_new(after, events, second);
}

/// The two fates of what is collected: everything kept either may interrupt
/// the user or is an insight for the ledger, and nothing kept is a duplicate.
pub proof fn law_kept_is_deliverable_or_insight(
    gate: GateView,
    processed: Set<Seq<char>>,
    events: Seq<ActorNamedEventView>,
    now: (i64, u32),
)
    ensures
        ({
            let after = collect_all(
                Collected { gate, processed, kept: Seq::empty() },
                events,
                now,
            );
            forall|i: int|
                0 <= i < after.kept.len() ==> {
                    let n = #[trigger] after.kept[i];
                    &&& n.decision.action == GateAction::Review || n.signal.category
                        == NotificationCategory::Insight
                    &&& n.decision.reason != "duplicate_signal"@
                }
        }),
    decreases events.len(),
{
    reveal_strlit("duplicate_signal");
    reveal_strlit("user_relevant");
    reveal_strlit("low_urgency");
    assert("duplicate_signal"@.len() != "user_relevant"@.len());
    assert("duplicate_signal"@.len() != "low_urgency"@.len());
    if events.len() > 0 {
        law_kept_is_deliverable_or_insight(gate, processed, events.drop_last(), now);
    }
}

/// A replay of a signal within the notification gate's window is dropped everywhere, the
/// ledger included.
pub proof fn law_replay_is_dropped(gate: GateView, first: SignalView, replay: SignalView)
    requires
        replay.category == first.category,
        replay.content == first.content,
        replay.observed_at.0 - first.observed_at.0 < gate.window_seconds,
        !notification::duplicate(gate, first),
    ensures
        ({
            let after = notification::gate_after(gate, first);
            &&& notification::duplicate(after, replay)
            &&& judged(after, replay).decision.action == GateAction::Drop
            &&& !worth_keeping(replay, judged(after, replay).decision)
            &&& notification::gate_after(after, replay) == after
        }),
{
    let after = notification::gate_after(gate, first);
    let i = gate.seen.len() as int;
    assert(after.seen[i].category == replay.category);
}

/// An insight that says nothing of its urgency never interrupts, and is kept
/// for the ledger unless it is a duplicate.
pub proof fn law_quiet_insight_goes_to_the_ledger(gate: GateView, signal: SignalView)
    requires
        signal.category == NotificationCategory::Insight,
        signal.urgency == notification::default_urgency(signal.category),
    ensures
        judged(gate, signal).decision.action == GateAction::Drop,
        worth_keeping(signal, judged(gate, signal).decision) <==> !notification::duplicate(
            gate,
            signal,
        ),
{
    reveal_strlit("duplicate_signal");
    reveal_strlit("low_urgency");
    assert("duplicate_signal"@.len() != "low_urgency"@.len());
}

} // verus!
