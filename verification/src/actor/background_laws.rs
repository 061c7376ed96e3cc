//! What the background actor is, what it is told, and what becomes of what it
//! finds.
use vstd::prelude::*;

use crate::actor::activity_log::ActivityKind;
use crate::actor::background;
use crate::actor::background::BackgroundNotificationView;
use crate::actor::notification;
use crate::actor::registry;
use crate::actor::registry::ActorRegistryView;
use crate::actor::registry::MessageIntent;
use crate::actor::registry::ModelTier;
use crate::json::JsonMemberView;
use crate::text;

verus! {

/// The title of an insight is told by its first sentence: what comes from the
/// first full stop, exclamation or question mark on does not count. It is on one
/// line and at most 64 characters and the mark of a cut long.
pub proof fn law_title_is_the_first_sentence(content: Seq<char>, k: int)
    requires
        0 <= k < content.len(),
        content[k] == '.' || content[k] == '!' || content[k] == '?',
        forall|i: int|
            0 <= i < k ==> #[trigger] content[i] != '.' && content[i] != '!' && content[i] != '?',
    ensures
        ({
            let line = text::collapsed(content.take(k));
            let title = background::title_of(content);
            &&& line.len() <= 64 ==> title == line
            &&& line.len() > 64 ==> title == line.take(64) + seq!['\u{2026}']
            &&& background::title_of(content.take(k)) == title
        }),
{
    let test = |c: char| background::ends_sentence(c);
    text::law_first_at(content, test);
    text::law_first_at(content.take(k), test);
    let at = text::first_at(content, test) as int;
    let start = content.take(k);
    assert(test(content[k]));
    assert(at == k) by {
        if at < k {
            assert(test(content[at]));
        }
    }
    let end = text::first_at(start, test) as int;
    if end < start.len() {
        assert(test(start[end]));
        assert(start[end] == content[end]);
    }
    assert(start.take(end) =~= content.take(k));
}

/// An insight without a mark that ends a sentence is its own title, on one line
/// and capped.
pub proof fn law_title_without_a_mark(content: Seq<char>)
    requires
        forall|i: int|
            0 <= i < content.len() ==> #[trigger] content[i] != '.' && content[i] != '!'
                && content[i] != '?',
    ensures
        ({
            let line = text::collapsed(content);
            let title = background::title_of(content);
            &&& line.len() <= 64 ==> title == line
            &&& line.len() > 64 ==> title == line.take(64) + seq!['\u{2026}']
        }),
{
    let test = |c: char| background::ends_sentence(c);
    text::law_first_at(content, test);
    let at = text::first_at(content, test) as int;
    if at < content.len() {
        assert(test(content[at]));
    }
    assert(content.take(at) =~= content);
}

/// The ledger gets an insight with the words for the user as its summary and
/// their first sentence as its title, under the event's id so that a retry is
/// known, with who found it, how it was classed, and when it was observed.
pub proof fn law_notification_goes_to_the_ledger(n: BackgroundNotificationView)
    ensures
        ({
            let entry = background::ledger_entry_of(n);
            &&& entry.kind == ActivityKind::Insight
            &&& entry.event_id == Some(n.signal.event_id)
            &&& entry.actor_id == Some(n.signal.source_actor_id)
            &&& entry.summary == text::trimmed(n.signal.content)
            &&& entry.title == background::title_of(entry.summary)
            &&& entry.detail is None
            &&& entry.category == Some(notification::category_text(n.signal.category))
            &&& entry.urgency == Some(notification::urgency_text(n.signal.urgency))
            &&& entry.source_name == n.signal.source_name
            &&& entry.produced_at == n.signal.observed_at
        }),
{
}

/// The background actor is called `dmn`, is in the group of those it works for,
/// runs on the auxiliary model, stays, and has 10000 turns. It can read and
/// search memory, update it, see the todos, send messages and end.
pub proof fn law_background_actor_is_set_up(group: Seq<char>)
    ensures
        ({
            let config = background::dmn_config(group);
            &&& config.name == "dmn"@
            &&& config.goals
                == "Run quiet background reflection. Review memory, active tasks, and reminders. Notify the cortex only for user-relevant reminders, warnings, or concise insights."@
            &&& config.group == group
            &&& config.model == Some(ModelTier::Aux)
            &&& config.max_turns == 10_000
            &&& config.persistent
            &&& config.tools.len() == 8
            &&& config.tools[0] == "memory_read"@
            &&& config.tools[1] == "memory_update"@
            &&& config.tools[2] == "archival_search"@
            &&& config.tools[3] == "conversation_search"@
            &&& config.tools[4] == "note_search"@
            &&& config.tools[5] == "todo_list"@
            &&& config.tools[6] == "send_message"@
            &&& config.tools[7] == "terminate"@
        }),
{
}

/// The background actor of a principal is the first actor called `dmn` in the
/// principal's group. Where there is one it is found, and nothing changes; where
/// there is none, one is spawned for the principal, and it is no principal
/// itself.
pub proof fn law_background_actor_is_found_or_spawned(
    before: ActorRegistryView,
    principal_id: Seq<char>,
    p: int,
)
    requires
        0 <= p < before.actors.len(),
        before.actors[p].id == principal_id,
        forall|i: int| 0 <= i < p ==> (#[trigger] before.actors[i]).id != principal_id,
    ensures
        ({
            let group = before.actors[p].config.group;
            let after = background::with_dmn(before, principal_id);
            let id = background::dmn_id(before, principal_id);
            let n = before.actors.len() as int;
            &&& forall|k: int|
                0 <= k < n && (#[trigger] before.actors[k]).config.name == "dmn"@
                    && before.actors[k].config.group == group && (forall|i: int|
                    0 <= i < k ==> (#[trigger] before.actors[i]).config.name != "dmn"@
                        || before.actors[i].config.group != group) ==> after == before && id
                    == before.actors[k].id
            &&& (forall|i: int|
                0 <= i < n ==> (#[trigger] before.actors[i]).config.name != "dmn"@
                    || before.actors[i].config.group != group) ==> {
                &&& after.actors.len() == n + 1
                &&& after.actors[n].id == id
                &&& id == "actor-"@ + text::decimal(before.issued)
                &&& after.actors[n].config == background::dmn_config(group)
                &&& after.actors[n].spawned_by == principal_id
                &&& !after.actors[n].is_principal
                &&& after.actors[n].inbox.len() == 0
                &&& forall|i: int| 0 <= i < n ==> #[trigger] after.actors[i] == before.actors[i]
                &&& after.events == before.events
            }
        }),
{
    let group = before.actors[p].config.group;
    registry::law_first_actor_is_found(before.actors, principal_id);
    registry::law_first_of_the_group_is_found(before.actors, "dmn"@, group);
    assert(registry::position_of(before.actors, principal_id) == p);
    let at = registry::position_named(before.actors, "dmn"@, group) as int;
    assert forall|k: int|
        0 <= k < before.actors.len() && (#[trigger] before.actors[k]).config.name == "dmn"@
            && before.actors[k].config.group == group && (forall|i: int|
            0 <= i < k ==> (#[trigger] before.actors[i]).config.name != "dmn"@
                || before.actors[i].config.group != group) implies at == k by {
        if at < k {
            assert(before.actors[at].config.name == "dmn"@);
        } else if k < at {
            assert(before.actors[k].config.name == "dmn"@);
        }
    }
}

/// A text is cut behind so many characters, and then says that it was.
pub proof fn law_truncated_says_so(value: Seq<char>, max_chars: nat)
    ensures
        value.len() <= max_chars ==> background::truncated(value, max_chars) == value,
        value.len() > max_chars ==> background::truncated(value, max_chars) == value.take(
            max_chars as int,
        ) + "\n...[truncated]"@,
{
}

/// The heartbeat message says what it is and how to reflect, then what the
/// heartbeat is about, up to 1200 characters, and then what the user is reminded
/// of, up to 800. What holds no words is left out, heading and all.
pub proof fn law_heartbeat_message_says_what_is_on(heartbeat: Seq<char>, reminders: Seq<char>)
    ensures
        ({
            let head = "[Background heartbeat]"@ + "\n\n"@
                + "Reflect quietly. Use user_notify only for items that deserve user attention."@;
            let about = if text::blank(heartbeat) {
                Seq::empty()
            } else {
                "\n\n"@ + "Heartbeat context:\n"@ + background::truncated(
                    text::trimmed(heartbeat),
                    1200,
                )
            };
            let due = if text::blank(reminders) {
                Seq::empty()
            } else {
                "\n\n"@ + "Active reminders:\n"@ + background::truncated(
                    text::trimmed(reminders),
                    800,
                )
            };
            background::heartbeat_text(heartbeat, reminders) == head + about + due
        }),
{
    let sep = "\n\n"@;
    let first = "[Background heartbeat]"@;
    let second = "Reflect quietly. Use user_notify only for items that deserve user attention."@;
    let head = seq![first, second];
    let a = background::section("Heartbeat context:\n"@, heartbeat, 1200);
    let b = background::section("Active reminders:\n"@, reminders, 800);
    text::laws::law_join_puts_separators_between(seq![first], seq![second], second, sep);
    text::laws::law_join_puts_separators_between(seq![second], seq![first], first, sep);
    assert(seq![first] + seq![second] =~= head);
    let whole = text::join(head, sep);
    assert(whole =~= first + sep + second);
    if a.len() > 0 {
        text::laws::law_join_puts_separators_between(head, a, a[0], sep);
        assert(a =~= seq![a[0]]);
    } else {
        assert(head + a =~= head);
    }
    let more = text::join(head + a, sep);
    if b.len() > 0 {
        text::laws::law_join_puts_separators_between(head + a, b, b[0], sep);
        assert(b =~= seq![b[0]]);
    } else {
        assert(head + a + b =~= head + a);
    }
    let said = background::heartbeat_text(heartbeat, reminders);
    assert(said == text::join(head + a + b, sep));
    let about = if text::blank(heartbeat) {
        Seq::empty()
    } else {
        sep + "Heartbeat context:\n"@ + background::truncated(text::trimmed(heartbeat), 1200)
    };
    let due = if text::blank(reminders) {
        Seq::empty()
    } else {
        sep + "Active reminders:\n"@ + background::truncated(text::trimmed(reminders), 800)
    };
    assert(more =~= whole + about);
    assert(said =~= more + due);
}

/// A heartbeat stands last in the inbox of the background actor, as a plain
/// message from the principal that says where it comes from. No other actor gets
/// anything.
pub proof fn law_heartbeat_is_queued_for_one(
    before: ActorRegistryView,
    principal_id: Seq<char>,
    dmn_actor_id: Seq<char>,
    heartbeat: Seq<char>,
    reminders: Seq<char>,
    at: int,
)
    requires
        0 <= at < before.actors.len(),
        before.actors[at].id == dmn_actor_id,
        forall|i: int| 0 <= i < at ==> (#[trigger] before.actors[i]).id != dmn_actor_id,
    ensures
        ({
            let after = background::heartbeat_queued(
                before,
                principal_id,
                dmn_actor_id,
                heartbeat,
                reminders,
            );
            let inbox = after.actors[at].inbox;
            &&& after.actors.len() == before.actors.len()
            &&& inbox.len() == before.actors[at].inbox.len() + 1
            &&& inbox.drop_last() == before.actors[at].inbox
            &&& inbox.last().sender == principal_id
            &&& inbox.last().content == background::heartbeat_text(heartbeat, reminders)
            &&& inbox.last().intent == MessageIntent::Message
            &&& inbox.last().metadata.len() == 2
            &&& inbox.last().metadata[0] == (
                "source"@,
                JsonMemberView::Text("background_heartbeat"@),
            )
            &&& inbox.last().metadata[1] == ("kind"@, JsonMemberView::Text("heartbeat"@))
            &&& forall|i: int|
                0 <= i < before.actors.len() && i != at ==> #[trigger] after.actors[i]
                    == before.actors[i]
        }),
{
    registry::law_first_actor_is_found(before.actors, dmn_actor_id);
    assert(registry::position_of(before.actors, dmn_actor_id) == at);
    let after = background::heartbeat_queued(
        before,
        principal_id,
        dmn_actor_id,
        heartbeat,
        reminders,
    );
    assert(after.actors[at].inbox.drop_last() =~= before.actors[at].inbox);
}

} // verus!
