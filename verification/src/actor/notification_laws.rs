//! What becomes of a signal, from the event that carries it to the user.
use vstd::prelude::*;

use crate::actor::collection;
use crate::actor::collection::Collected;
use crate::actor::notification;
use crate::actor::notification::GateAction;
use crate::actor::notification::GateView;
use crate::actor::notification::NotificationCategory;
use crate::actor::notification::NotificationSource;
use crate::actor::notification::NotificationUrgency;
use crate::actor::notification::Relevance;
use crate::actor::notification::SignalView;
use crate::actor::registry::ActorNamedEventView;
use crate::actor::registry::PayloadValueView;
use crate::json;
use crate::json::JsonMemberView;
use crate::json::MembersView;
use crate::text;

verus! {

/// Each category and each urgency is known by its own name; a name that is none
/// of them means information, or the usual urgency of the category. Reminders
/// and warnings are usually normal, insights and information low.
pub proof fn law_names_of_signals(
    category: NotificationCategory,
    urgency: NotificationUrgency,
    name: Seq<char>,
)
    ensures
        notification::category_text(NotificationCategory::Reminder) == "reminder"@,
        notification::category_text(NotificationCategory::Warning) == "warning"@,
        notification::category_text(NotificationCategory::Insight) == "insight"@,
        notification::category_text(NotificationCategory::Info) == "info"@,
        notification::category_named(notification::category_text(category)) == category,
        (forall|c: NotificationCategory| name != #[trigger] notification::category_text(c))
            ==> notification::category_named(name) == NotificationCategory::Info,
        notification::urgency_text(NotificationUrgency::Low) == "low"@,
        notification::urgency_text(NotificationUrgency::Normal) == "normal"@,
        notification::urgency_text(NotificationUrgency::High) == "high"@,
        notification::urgency_named(Some(notification::urgency_text(urgency)), category) == urgency,
        (forall|u: NotificationUrgency| name != #[trigger] notification::urgency_text(u))
            ==> notification::urgency_named(Some(name), category) == notification::default_urgency(
            category,
        ),
        notification::urgency_named(None, category) == notification::default_urgency(category),
        notification::default_urgency(category) == NotificationUrgency::Normal <==> (category
            == NotificationCategory::Reminder || category == NotificationCategory::Warning),
        notification::default_urgency(category) == NotificationUrgency::Low <==> (category
            == NotificationCategory::Insight || category == NotificationCategory::Info),
        notification::source_named(name) == NotificationSource::Dmn <==> name == "dmn"@,
        notification::source_named(name) == NotificationSource::Brainstem <==> name
            == "brainstem"@,
{
    reveal_strlit("reminder");
    reveal_strlit("warning");
    reveal_strlit("insight");
    reveal_strlit("info");
    reveal_strlit("low");
    reveal_strlit("normal");
    reveal_strlit("high");
    reveal_strlit("dmn");
    reveal_strlit("brainstem");
    assert("reminder"@.len() == 8 && "warning"@.len() == 7 && "insight"@.len() == 7 && "info"@.len()
        == 4);
    assert("warning"@[0] == 'w' && "insight"@[0] == 'i');
    assert("low"@.len() == 3 && "normal"@.len() == 6 && "high"@.len() == 4);
    assert("dmn"@.len() == 3 && "brainstem"@.len() == 9);
    assert(notification::category_text(NotificationCategory::Reminder) == "reminder"@);
    assert(notification::category_text(NotificationCategory::Warning) == "warning"@);
    assert(notification::category_text(NotificationCategory::Insight) == "insight"@);
    assert(notification::urgency_text(NotificationUrgency::Low) == "low"@);
    assert(notification::urgency_text(NotificationUrgency::Normal) == "normal"@);
    assert(notification::urgency_text(NotificationUrgency::High) == "high"@);
}

/// A signal keeps what its event says: who raised it, its words, its metadata
/// and when it was observed. The metadata's own category counts before the kind
/// of the event, and its own urgency before the usual one.
pub proof fn law_signal_keeps_its_event(
    event_id: Seq<char>,
    source_name: Seq<char>,
    source_actor_id: Seq<char>,
    kind: Seq<char>,
    content: Seq<char>,
    metadata: MembersView,
    observed_at: (i64, u32),
)
    ensures
        ({
            let signal = notification::signal_of(
                event_id,
                source_name,
                source_actor_id,
                kind,
                content,
                metadata,
                observed_at,
            );
            let named = json::member(metadata, "signal_category"@);
            let pressed = json::member(metadata, "signal_urgency"@);
            &&& signal.event_id == event_id
            &&& signal.source_name == source_name
            &&& signal.source == notification::source_named(source_name)
            &&& signal.source_actor_id == source_actor_id
            &&& signal.content == content
            &&& signal.metadata == metadata
            &&& signal.observed_at == observed_at
            &&& named matches Some(JsonMemberView::Text(t)) ==> signal.category
                == notification::category_named(t)
            &&& !(named matches Some(JsonMemberView::Text(_))) ==> signal.category
                == notification::category_named(kind)
            &&& pressed matches Some(JsonMemberView::Text(t)) ==> signal.urgency
                == notification::urgency_named(Some(t), signal.category)
            &&& !(pressed matches Some(JsonMemberView::Text(_))) ==> signal.urgency
                == notification::default_urgency(signal.category)
        }),
{
}

/// An event carries a signal exactly where its payload has a message with words,
/// and then these words without the white space around them, under the event's
/// id and the names of its actor. Without a kind of its own it is information;
/// without metadata it has none.
pub proof fn law_event_carries_its_message(named: ActorNamedEventView, now: (i64, u32))
    ensures
        ({
            let payload = named.event.payload;
            let message = json::member(payload, "message"@);
            let kind = json::member(payload, "kind"@);
            let metadata = json::member(payload, "metadata"@);
            let signal = collection::event_signal(named, now);
            &&& signal is Some <==> (message matches Some(
                PayloadValueView::Plain(JsonMemberView::Text(words)),
            ) && !text::blank(words))
            &&& signal matches Some(s) ==> {
                &&& s.event_id == named.event.id
                &&& s.source_name == named.actor_name
                &&& s.source_actor_id == named.event.actor_id
                &&& s.observed_at == now
                &&& s.content == text::trimmed(message->0->Plain_0->Text_0)
                &&& metadata matches Some(PayloadValueView::Members(m)) ==> s.metadata == m
                &&& !(metadata matches Some(PayloadValueView::Members(_))) ==> s.metadata.len() == 0
                &&& !(json::member(s.metadata, "signal_category"@) matches Some(
                    JsonMemberView::Text(_),
                )) ==> {
                    &&& kind matches Some(PayloadValueView::Plain(JsonMemberView::Text(k)))
                        ==> s.category == notification::category_named(k)
                    &&& !(kind matches Some(PayloadValueView::Plain(JsonMemberView::Text(_))))
                        ==> s.category == NotificationCategory::Info
                }
            }
        }),
{
    law_names_of_signals(NotificationCategory::Info, NotificationUrgency::Low, "info"@);
}

/// The notification gate drops a signal that it has seen within its window, of
/// the same category and in the same words. Of the others it lets through what
/// is of high urgency, and what is of normal urgency where it matters: reminders
/// and warnings do. It remembers every signal that was not a repetition, and a
/// repetition changes nothing.
pub proof fn law_gate_lets_through_what_presses(gate: GateView, signal: SignalView)
    ensures
        ({
            let n = collection::judged(gate, signal);
            let after = notification::gate_after(gate, signal);
            let matters = signal.category == NotificationCategory::Reminder || signal.category
                == NotificationCategory::Warning;
            let repeated = exists|i: int|
                0 <= i < gate.seen.len() && (#[trigger] gate.seen[i]).category == signal.category
                    && gate.seen[i].content == signal.content && signal.observed_at.0
                    < gate.seen[i].at + gate.window_seconds;
            &&& n.signal == signal
            &&& n.assessment.relevance == Relevance::High <==> matters
            &&& n.decision.action == GateAction::Review <==> !repeated && (signal.urgency
                == NotificationUrgency::High || (signal.urgency == NotificationUrgency::Normal
                && matters))
            &&& repeated ==> n.decision.reason == "duplicate_signal"@
            &&& !repeated && n.decision.action == GateAction::Review ==> n.decision.reason
                == "user_relevant"@
            &&& !repeated && n.decision.action == GateAction::Drop ==> n.decision.reason
                == "low_urgency"@
            &&& after.window_seconds == gate.window_seconds
            &&& repeated ==> after == gate
            &&& !repeated ==> after.seen.len() == gate.seen.len() + 1
            &&& !repeated ==> after.seen.last().category == signal.category
                && after.seen.last().content == signal.content && after.seen.last().at
                == signal.observed_at.0
            &&& forall|i: int| 0 <= i < gate.seen.len() ==> #[trigger] after.seen[i] == gate.seen[i]
            &&& notification::duplicate(gate, signal) == repeated
        }),
{
    let repeated = exists|i: int|
        0 <= i < gate.seen.len() && (#[trigger] gate.seen[i]).category == signal.category
            && gate.seen[i].content == signal.content && signal.observed_at.0 < gate.seen[i].at
            + gate.window_seconds;
    if notification::duplicate(gate, signal) {
        let i = choose|i: int|
            0 <= i < gate.seen.len() && (#[trigger] gate.seen[i]).category == signal.category
                && gate.seen[i].content == signal.content && signal.observed_at.0
                - gate.seen[i].at < gate.window_seconds;
        assert(gate.seen[i].category == signal.category);
        assert(repeated);
    }
    if repeated {
        let i = choose|i: int|
            0 <= i < gate.seen.len() && (#[trigger] gate.seen[i]).category == signal.category
                && gate.seen[i].content == signal.content && signal.observed_at.0
                < gate.seen[i].at + gate.window_seconds;
        assert(gate.seen[i].category == signal.category);
        assert(notification::duplicate(gate, signal));
    }
}

/// What one more event brings: nothing where it was processed before, or where
/// it carries no signal. Otherwise the notification gate judges its signal, and
/// the notification is added at the end where it may interrupt the user, or is
/// an insight that is no repetition. Either way the event is processed.
pub proof fn law_one_event_brings_its_signal(
    state: Collected,
    named: ActorNamedEventView,
    now: (i64, u32),
)
    ensures
        ({
            let after = collection::collect_one(state, named, now);
            let known = state.processed.contains(named.event.id);
            let signal = collection::event_signal(named, now);
            let n = collection::judged(state.gate, signal->0);
            let kept = n.decision.action == GateAction::Review || (signal->0.category
                == NotificationCategory::Insight && !notification::duplicate(
                state.gate,
                signal->0,
            ));
            &&& known ==> after == state
            &&& !known ==> after.processed == state.processed.insert(named.event.id)
            &&& !known && signal is None ==> after.gate == state.gate && after.kept == state.kept
            &&& !known && signal is Some ==> after.gate == notification::gate_after(
                state.gate,
                signal->0,
            )
            &&& !known && signal is Some && kept ==> after.kept == state.kept + seq![n]
            &&& !known && signal is Some && !kept ==> after.kept == state.kept
        }),
{
    reveal_strlit("duplicate_signal");
    reveal_strlit("low_urgency");
    assert("duplicate_signal"@.len() != "low_urgency"@.len());
    let signal = collection::event_signal(named, now);
    let n = collection::judged(state.gate, signal->0);
    assert(state.kept.push(n) =~= state.kept + seq![n]);
}

/// Events are taken one after the other, in their order: collecting from two
/// batches is collecting from the one and then from the other, and a batch of
/// one brings what its event brings.
pub proof fn law_events_are_taken_in_order(
    state: Collected,
    first: Seq<ActorNamedEventView>,
    then: Seq<ActorNamedEventView>,
    one: ActorNamedEventView,
    now: (i64, u32),
)
    ensures
        collection::collect_all(state, Seq::empty(), now) == state,
        collection::collect_all(state, seq![one], now) == collection::collect_one(state, one, now),
        collection::collect_all(state, first + then, now) == collection::collect_all(
            collection::collect_all(state, first, now),
            then,
            now,
        ),
    decreases then.len(),
{
    reveal_with_fuel(collection::collect_all, 2);
    assert(seq![one].drop_last() =~= Seq::empty());
    if then.len() > 0 {
        law_events_are_taken_in_order(state, first, then.drop_last(), one, now);
        assert((first + then).drop_last() =~= first + then.drop_last());
        assert((first + then).last() == then.last());
    } else {
        assert(first + then =~= first);
    }
}

} // verus!
