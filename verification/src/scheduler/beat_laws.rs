//! What holds of a beat as a whole.
use vstd::prelude::*;

use crate::actor::background;
use crate::actor::background::BackgroundNotificationView;
use crate::config::Settings;
use crate::scheduler::brainstem;
use crate::scheduler::brainstem::Beat;
use crate::scheduler::brainstem::BeatStateView;
use crate::scheduler::brainstem::BeatStep;
use crate::scheduler::brainstem::HeartbeatAction;
use crate::scheduler::brainstem::HeartbeatState;
use crate::scheduler::brainstem::TodoPriority;
use crate::scheduler::proactive;
use crate::scheduler::proactive::ActiveReminderView;
use crate::scheduler::proactive::LimiterView;
use crate::text;

verus! {

proof fn lemma_deliveries(beat: Beat, messages: Seq<Seq<char>>, now: i64)
    ensures
        ({
            let after = brainstem::with_deliveries(beat, messages, now);
            &&& after.outcome.messages == beat.outcome.messages + messages
            &&& after.state.limiter.sends.len() == beat.state.limiter.sends.len() + messages.len()
            &&& after.state.outbox == beat.state.outbox
            &&& after.state.heartbeat == beat.state.heartbeat
            &&& after.state.limiter.max_per_day == beat.state.limiter.max_per_day
            &&& after.state.limiter.cooldown_seconds == beat.state.limiter.cooldown_seconds
        }),
    decreases messages.len(),
{
    let after = brainstem::with_deliveries(beat, messages, now);
    if messages.len() > 0 {
        lemma_deliveries(beat, messages.drop_last(), now);
    }
    assert(after.outcome.messages =~= beat.outcome.messages + messages);
}

/// A whole beat in which the model is asked.
pub open spec fn whole_beat(
    state: BeatStateView,
    opened_at: i64,
    heartbeat: HeartbeatState,
    open_work: Seq<char>,
    notifications: Seq<Seq<char>>,
    action: HeartbeatAction,
    message: Seq<char>,
    concluded_at: i64,
) -> Beat {
    let opened = brainstem::opened(state, opened_at);
    let heard = Beat {
        state: brainstem::with_answer(opened.state, heartbeat),
        outcome: brainstem::BeatOutcomeView {
            open_work: !text::blank(open_work),
            ..opened.outcome
        },
    };
    brainstem::concluded(heard, notifications, action, message, concluded_at)
}

/// Every message of a beat is counted against the rate limit, and nothing
/// else is; the limits themselves stay as they are.
pub proof fn law_every_message_is_counted(
    state: BeatStateView,
    opened_at: i64,
    heartbeat: HeartbeatState,
    open_work: Seq<char>,
    notifications: Seq<Seq<char>>,
    action: HeartbeatAction,
    message: Seq<char>,
    concluded_at: i64,
)
    ensures
        ({
            let after = whole_beat(
                state,
                opened_at,
                heartbeat,
                open_work,
                notifications,
                action,
                message,
                concluded_at,
            );
            &&& after.state.limiter.sends.len() == state.limiter.sends.len()
                + after.outcome.messages.len()
            &&& after.state.limiter.max_per_day == state.limiter.max_per_day
            &&& after.state.limiter.cooldown_seconds == state.limiter.cooldown_seconds
        }),
{
    let opened = brainstem::opened(state, opened_at);
    let heard = Beat {
        state: brainstem::with_answer(opened.state, heartbeat),
        outcome: brainstem::BeatOutcomeView {
            open_work: !text::blank(open_work),
            ..opened.outcome
        },
    };
    lemma_deliveries(heard, notifications, concluded_at);
}

/// A message that waited gets first claim on the budget of the beat: when the
/// limiter allows it, it is the first message and waits no longer. This holds
/// whether the beat goes on or rests.
pub proof fn law_deferred_goes_first(
    state: BeatStateView,
    held: Seq<char>,
    opened_at: i64,
    heartbeat: HeartbeatState,
    open_work: Seq<char>,
    notifications: Seq<Seq<char>>,
    action: HeartbeatAction,
    message: Seq<char>,
    concluded_at: i64,
)
    requires
        state.outbox == Some(held),
        proactive::allows(state.limiter, opened_at),
    ensures
        brainstem::opened(state, opened_at).outcome.messages == seq![held],
        brainstem::opened(state, opened_at).state.outbox is None,
        ({
            let after = whole_beat(
                state,
                opened_at,
                heartbeat,
                open_work,
                notifications,
                action,
                message,
                concluded_at,
            );
            after.outcome.messages.len() > 0 && after.outcome.messages[0] == held
        }),
{
    let opened = brainstem::opened(state, opened_at);
    assert(opened.outcome.messages =~= seq![held]);
    let heard = Beat {
        state: brainstem::with_answer(opened.state, heartbeat),
        outcome: brainstem::BeatOutcomeView {
            open_work: !text::blank(open_work),
            ..opened.outcome
        },
    };
    lemma_deliveries(heard, notifications, concluded_at);
}

/// Rate-limited is not silenced: what the model wants to send is either the
/// last message of the beat or waits for a later one.
pub proof fn law_nothing_is_silenced(
    beat: Beat,
    notifications: Seq<Seq<char>>,
    message: Seq<char>,
    now: i64,
)
    requires
        !text::blank(message),
    ensures
        ({
            let after = brainstem::concluded(
                beat,
                notifications,
                HeartbeatAction::Send,
                message,
                now,
            );
            let kept = text::trimmed(message);
            let sent = beat.outcome.messages + notifications;
            ||| after.outcome.messages == sent.push(kept) && after.state.outbox
                == beat.state.outbox
            ||| after.outcome.messages == sent && after.state.outbox == Some(kept)
        }),
{
    lemma_deliveries(beat, notifications, now);
}

/// Every notification of the background pass is delivered, in order, whatever
/// the limiter says.
pub proof fn law_notifications_are_delivered(
    beat: Beat,
    notifications: Seq<Seq<char>>,
    action: HeartbeatAction,
    message: Seq<char>,
    now: i64,
)
    ensures
        ({
            let after = brainstem::concluded(beat, notifications, action, message, now);
            (beat.outcome.messages + notifications).is_prefix_of(after.outcome.messages)
        }),
{
    lemma_deliveries(beat, notifications, now);
    let after = brainstem::concluded(beat, notifications, action, message, now);
    let sent = beat.outcome.messages + notifications;
    assert(sent =~= after.outcome.messages.subrange(0, sent.len() as int));
}

/// Unfinished work, a reminder, the first tick and the deep review each
/// defeat the idle gate; a beat that rests decided nothing but that.
pub proof fn law_open_work_defeats_the_idle_gate(
    beat: Beat,
    first_tick: bool,
    use_full_context: bool,
    reminders: Seq<char>,
    open_work: Seq<char>,
    resting: HeartbeatState,
)
    ensures
        ({
            let (after, step) = brainstem::surveyed(
                beat,
                first_tick,
                use_full_context,
                reminders,
                open_work,
                resting,
            );
            &&& step == BeatStep::Rest <==> !first_tick && !use_full_context && text::blank(
                reminders,
            ) && text::blank(open_work)
            &&& step == BeatStep::Converse ==> after.outcome.idle == beat.outcome.idle
            &&& step == BeatStep::Rest ==> after.outcome.idle && !after.outcome.open_work
            &&& after.outcome.open_work <==> !text::blank(open_work)
            &&& after.outcome.messages == beat.outcome.messages
            &&& after.state.limiter == beat.state.limiter
            &&& after.state.outbox == beat.state.outbox
        }),
{
}

/// A config change applies on restore without touching the dynamic parts, and
/// restoring twice is restoring once.
pub proof fn law_restore_keeps_the_dynamic_parts(
    state: BeatStateView,
    first: Settings,
    second: Settings,
)
    ensures
        ({
            let after = brainstem::under_settings(state, first);
            &&& after.limiter.max_per_day == first.background.proactive_max_per_day
            &&& after.limiter.cooldown_seconds == first.background.proactive_cooldown_minutes * 60
            &&& after.limiter.sends == state.limiter.sends
            &&& after.outbox == state.outbox
            &&& after.heartbeat == state.heartbeat
            &&& brainstem::under_settings(after, second) == brainstem::under_settings(
                state,
                second,
            )
        }),
{
}

/// Those of the sends that lie within the day before `now`.
pub open spec fn of_the_day(sends: Seq<i64>, now: i64) -> Seq<i64> {
    sends.filter(|at: i64| now - at < 24 * 60 * 60)
}

proof fn lemma_of_the_day(sends: Seq<i64>, now: i64)
    ensures
        proactive::sent_today(sends, now) == of_the_day(sends, now).len(),
    decreases sends.len(),
{
    reveal(Seq::filter);
    if sends.len() > 0 {
        lemma_of_the_day(sends.drop_last(), now);
    }
}

/// The limiter allows a message exactly where fewer messages than the limit
/// were sent in the 24 hours before, and the pause has passed since each
/// message that was ever sent.
pub proof fn law_limiter_keeps_to_limit_and_pause(limiter: LimiterView, now: i64)
    ensures
        proactive::allows(limiter, now) <==> {
            &&& of_the_day(limiter.sends, now).len() < limiter.max_per_day
            &&& forall|i: int|
                0 <= i < limiter.sends.len() ==> #[trigger] limiter.sends[i]
                    + limiter.cooldown_seconds <= now
        },
{
    lemma_of_the_day(limiter.sends, now);
}

/// A message that is counted uses up the budget: until the pause is over
/// nothing more is allowed, nor while the day's limit is one message and the
/// day is not over. The limits stay as they are, and what was counted before
/// stays counted.
pub proof fn law_counted_uses_up_the_budget(limiter: LimiterView, sent: i64, now: i64)
    ensures
        ({
            let after = proactive::counted(limiter, sent);
            &&& after.max_per_day == limiter.max_per_day
            &&& after.cooldown_seconds == limiter.cooldown_seconds
            &&& after.sends == limiter.sends + seq![sent]
            &&& now - sent < limiter.cooldown_seconds ==> !proactive::allows(after, now)
            &&& now - sent < 24 * 60 * 60 && limiter.max_per_day <= 1 ==> !proactive::allows(
                after,
                now,
            )
            &&& proactive::allows(after, now) ==> proactive::allows(limiter, now)
        }),
{
    let after = proactive::counted(limiter, sent);
    assert(after.sends =~= limiter.sends + seq![sent]);
    assert(after.sends.drop_last() =~= limiter.sends);
    assert(after.sends[limiter.sends.len() as int] == sent);
    assert forall|i: int| 0 <= i < limiter.sends.len() && proactive::allows(after, now) implies now
        - #[trigger] limiter.sends[i] >= limiter.cooldown_seconds by {
        assert(after.sends[i] == limiter.sends[i]);
    }
}

/// A limiter that has counted nothing allows a message exactly where any
/// message is allowed at all. Its limits are those of the settings, a minute
/// of pause being sixty seconds.
pub proof fn law_fresh_limiter_follows_the_settings(settings: Settings, now: i64)
    ensures
        ({
            let fresh = proactive::fresh_limiter(settings);
            &&& fresh.sends.len() == 0
            &&& fresh.max_per_day == settings.background.proactive_max_per_day
            &&& fresh.cooldown_seconds == settings.background.proactive_cooldown_minutes * 60
            &&& proactive::allows(fresh, now) <==> settings.background.proactive_max_per_day > 0
        }),
{
}

proof fn lemma_delivered_sends(beat: Beat, messages: Seq<Seq<char>>, now: i64)
    ensures
        ({
            let after = brainstem::with_deliveries(beat, messages, now);
            &&& after.state.limiter.sends == beat.state.limiter.sends + Seq::new(
                messages.len(),
                |i: int| now,
            )
            &&& after.outcome.idle == beat.outcome.idle
            &&& after.outcome.open_work == beat.outcome.open_work
        }),
    decreases messages.len(),
{
    let after = brainstem::with_deliveries(beat, messages, now);
    if messages.len() > 0 {
        lemma_delivered_sends(beat, messages.drop_last(), now);
    }
    assert(after.state.limiter.sends =~= beat.state.limiter.sends + Seq::new(
        messages.len(),
        |i: int| now,
    ));
}

/// The heartbeat's own message comes after everything else that the beat
/// delivers, and under what is then left of the budget: it is sent exactly
/// where the limiter, with every notification of this beat counted at `now`,
/// has neither reached the day's limit nor a pause that is not over. Otherwise
/// it is what waits in the outbox. A beat whose model is idle, or has nothing
/// but white space to say, sends the notifications alone and leaves the outbox
/// as it was.
pub proof fn law_heartbeat_message_gets_what_is_left(
    beat: Beat,
    notifications: Seq<Seq<char>>,
    action: HeartbeatAction,
    message: Seq<char>,
    now: i64,
)
    ensures
        ({
            let after = brainstem::concluded(beat, notifications, action, message, now);
            let told = beat.outcome.messages + notifications;
            let sends = beat.state.limiter.sends + Seq::new(notifications.len(), |i: int| now);
            let wanted = action == HeartbeatAction::Send && exists|i: int|
                0 <= i < message.len() && !text::is_white(#[trigger] message[i]);
            let room = of_the_day(sends, now).len() < beat.state.limiter.max_per_day && forall|
                i: int,
            |
                0 <= i < sends.len() ==> #[trigger] sends[i] + beat.state.limiter.cooldown_seconds
                    <= now;
            &&& wanted && room ==> after.outcome.messages == told + seq![text::trimmed(message)]
            &&& wanted && room ==> after.state.limiter.sends == sends + seq![now]
            &&& wanted && room ==> after.state.outbox == beat.state.outbox
            &&& wanted && !room ==> after.outcome.messages == told
            &&& wanted && !room ==> after.state.limiter.sends == sends
            &&& wanted && !room ==> after.state.outbox == Some(text::trimmed(message))
            &&& !wanted ==> after.outcome.messages == told
            &&& !wanted ==> after.state.limiter.sends == sends
            &&& !wanted ==> after.state.outbox == beat.state.outbox
            &&& after.outcome.idle == beat.outcome.idle
            &&& after.outcome.open_work == beat.outcome.open_work
            &&& after.state.heartbeat == beat.state.heartbeat
            &&& after.state.limiter.max_per_day == beat.state.limiter.max_per_day
            &&& after.state.limiter.cooldown_seconds == beat.state.limiter.cooldown_seconds
        }),
{
    let after = brainstem::concluded(beat, notifications, action, message, now);
    let informed = brainstem::with_deliveries(beat, notifications, now);
    let told = beat.outcome.messages + notifications;
    lemma_deliveries(beat, notifications, now);
    lemma_delivered_sends(beat, notifications, now);
    law_limiter_keeps_to_limit_and_pause(informed.state.limiter, now);
    let sends = informed.state.limiter.sends;
    assert(told.push(text::trimmed(message)) =~= told + seq![text::trimmed(message)]);
    assert(sends.push(now) =~= sends + seq![now]);
}

/// A beat with a pause between messages tells the user at most one thing of
/// its own: where a notification was delivered, the heartbeat's message waits.
pub proof fn law_notifications_come_before_the_heartbeat(
    beat: Beat,
    notifications: Seq<Seq<char>>,
    message: Seq<char>,
    now: i64,
)
    requires
        notifications.len() > 0,
        !text::blank(message),
        beat.state.limiter.cooldown_seconds > 0 || beat.state.limiter.max_per_day
            <= notifications.len(),
    ensures
        ({
            let after = brainstem::concluded(
                beat,
                notifications,
                HeartbeatAction::Send,
                message,
                now,
            );
            &&& after.outcome.messages == beat.outcome.messages + notifications
            &&& after.state.outbox == Some(text::trimmed(message))
        }),
{
    let informed = brainstem::with_deliveries(beat, notifications, now);
    lemma_deliveries(beat, notifications, now);
    lemma_delivered_sends(beat, notifications, now);
    let sends = informed.state.limiter.sends;
    let first = beat.state.limiter.sends.len() as int;
    assert(sends[first] == now);
    lemma_sent_just_now(beat.state.limiter.sends, notifications.len(), now);
}

proof fn lemma_sent_just_now(sends: Seq<i64>, n: nat, now: i64)
    ensures
        proactive::sent_today(sends + Seq::new(n, |i: int| now), now) >= n,
    decreases n,
{
    let all = sends + Seq::new(n, |i: int| now);
    if n > 0 {
        lemma_sent_just_now(sends, (n - 1) as nat, now);
        assert(all.drop_last() =~= sends + Seq::new((n - 1) as nat, |i: int| now));
    }
}

/// A beat begins with the message that waited, exactly where the limiter
/// allows it: then it is sent, counted, and waits no longer. Otherwise nothing
/// is sent, and what waits goes on waiting. Nothing else is decided yet.
pub proof fn law_waiting_message_opens_the_beat(state: BeatStateView, now: i64)
    ensures
        ({
            let begun = brainstem::opened(state, now);
            let room = of_the_day(state.limiter.sends, now).len() < state.limiter.max_per_day
                && forall|i: int|
                0 <= i < state.limiter.sends.len() ==> #[trigger] state.limiter.sends[i]
                    + state.limiter.cooldown_seconds <= now;
            &&& state.outbox matches Some(held) ==> (room ==> begun.outcome.messages == seq![held])
            &&& state.outbox is Some && room ==> begun.state.limiter.sends == state.limiter.sends
                + seq![now]
            &&& state.outbox is Some && room ==> begun.state.outbox is None
            &&& state.outbox is None || !room ==> begun.outcome.messages.len() == 0
            &&& state.outbox is None || !room ==> begun.state.limiter.sends == state.limiter.sends
            &&& state.outbox is None || !room ==> begun.state.outbox == state.outbox
            &&& begun.state.heartbeat == state.heartbeat
            &&& begun.state.limiter.max_per_day == state.limiter.max_per_day
            &&& begun.state.limiter.cooldown_seconds == state.limiter.cooldown_seconds
            &&& !begun.outcome.idle
            &&& !begun.outcome.open_work
        }),
{
    law_limiter_keeps_to_limit_and_pause(state.limiter, now);
    let begun = brainstem::opened(state, now);
    if let Some(held) = state.outbox {
        if proactive::allows(state.limiter, now) {
            assert(begun.outcome.messages =~= seq![held]);
            assert(begun.state.limiter.sends =~= state.limiter.sends + seq![now]);
        }
    }
}

/// What the heartbeat remembers changes with the model's answer, and with a
/// beat that rests; nothing else changes it, and it changes nothing else.
pub proof fn law_heartbeat_remembers(
    beat: Beat,
    first_tick: bool,
    use_full_context: bool,
    reminders: Seq<char>,
    open_work: Seq<char>,
    memory: HeartbeatState,
)
    ensures
        ({
            let (after, step) = brainstem::surveyed(
                beat,
                first_tick,
                use_full_context,
                reminders,
                open_work,
                memory,
            );
            &&& step == BeatStep::Rest ==> after.state.heartbeat == memory
            &&& step == BeatStep::Converse ==> after.state.heartbeat == beat.state.heartbeat
            &&& brainstem::idle(first_tick, use_full_context, reminders, open_work) <==> step
                == BeatStep::Rest
        }),
        ({
            let after = brainstem::with_answer(beat.state, memory);
            &&& after.heartbeat == memory
            &&& after.limiter == beat.state.limiter
            &&& after.outbox == beat.state.outbox
        }),
{
}

/// A beat rests exactly where it is neither the first nor a deep review, and
/// neither the reminders nor the open work hold a character that is not white
/// space.
pub proof fn law_idle_has_nothing_to_act_on(
    first_tick: bool,
    use_full_context: bool,
    reminders: Seq<char>,
    open_work: Seq<char>,
)
    ensures
        !brainstem::idle(first_tick, use_full_context, reminders, open_work) <==> {
            ||| first_tick
            ||| use_full_context
            ||| exists|i: int| 0 <= i < reminders.len() && !text::is_white(#[trigger] reminders[i])
            ||| exists|i: int| 0 <= i < open_work.len() && !text::is_white(#[trigger] open_work[i])
        },
{
}

/// Every message of a beat is emitted, once and in its place, and nothing else
/// is. A beat that was triggered by hand reports the one that comes first.
pub proof fn law_messages_are_emitted(messages: Seq<Seq<char>>)
    ensures
        ({
            let out = brainstem::emissions_of(messages);
            &&& out.len() == messages.len()
            &&& forall|i: int|
                0 <= i < messages.len() ==> (#[trigger] out[i]).message == messages[i]
                    && out[i].kind == brainstem::BrainstemEmissionKind::Proactive
            &&& brainstem::first_message(messages) is None <==> messages.len() == 0
            &&& messages.len() > 0 ==> brainstem::first_message(messages) == Some(out[0].message)
        }),
{
}

/// The loop beats exactly where the heartbeat is switched on, as often as the
/// settings say, but never faster than once in a second.
pub proof fn law_loop_beats_as_set(settings: Settings)
    ensures
        brainstem::interval_of(settings) is Some <==> settings.background.heartbeat_enabled,
        brainstem::interval_of(settings) matches Some(seconds) ==> {
            &&& seconds >= 1
            &&& settings.background.heartbeat_interval_seconds >= 1 ==> seconds
                == settings.background.heartbeat_interval_seconds
            &&& seconds <= settings.background.heartbeat_interval_seconds || seconds == 1
        },
{
}

proof fn lemma_joined_more(parts: Seq<Seq<char>>, sep: Seq<char>, more: Seq<char>)
    requires
        parts.len() > 0,
    ensures
        text::join(parts.push(more), sep) == text::join(parts, sep) + (sep + more),
{
    assert(parts.push(more).drop_last() =~= parts);
}

/// Reminders stand one on each line, in the order of the todos: another one
/// adds a line, as long as there is room for it, and beyond the limit none is
/// shown. No reminders are no text.
pub proof fn law_reminders_are_lines(
    reminders: Seq<ActiveReminderView>,
    more: ActiveReminderView,
    limit: nat,
)
    ensures
        proactive::reminder_lines(Seq::empty(), limit).len() == 0,
        proactive::reminder_lines(reminders, 0).len() == 0,
        reminders.len() >= limit ==> proactive::reminder_lines(reminders.push(more), limit)
            == proactive::reminder_lines(reminders, limit),
        limit > 0 ==> proactive::reminder_lines(seq![more], limit) == proactive::reminder_line(
            more,
        ),
        0 < reminders.len() < limit ==> proactive::reminder_lines(reminders.push(more), limit)
            == proactive::reminder_lines(reminders, limit) + "\n"@ + proactive::reminder_line(more),
{
    let sep = "\n"@;
    let lines = |rs: Seq<ActiveReminderView>, n: nat|
        Seq::new(n, |i: int| proactive::reminder_line(rs[i]));
    assert(lines(Seq::empty(), 0) =~= Seq::empty());
    assert(lines(reminders, 0) =~= Seq::empty());
    if reminders.len() >= limit {
        assert(lines(reminders.push(more), limit) =~= lines(reminders, limit));
    } else {
        let n = reminders.len();
        assert(lines(reminders.push(more), n + 1) =~= lines(reminders, n).push(
            proactive::reminder_line(more),
        ));
        if n > 0 {
            lemma_joined_more(lines(reminders, n), sep, proactive::reminder_line(more));
            let before = text::join(lines(reminders, n), sep);
            assert(before + (sep + proactive::reminder_line(more)) =~= before + sep
                + proactive::reminder_line(more));
        }
    }
    if limit > 0 {
        assert(lines(seq![more], 1) =~= seq![proactive::reminder_line(more)]);
    }
}

/// A reminder says its priority in brackets, then its title, and in the end
/// when it is due, where it is due at all.
pub proof fn law_reminder_says_what_is_due(reminder: ActiveReminderView)
    ensures
        ({
            let line = proactive::reminder_line(reminder);
            let p = reminder.priority.len() as int;
            let t = reminder.title.len() as int;
            &&& line.len() >= p + t + 5
            &&& line.take(3) == "- ["@
            &&& line.subrange(3, 3 + p) == reminder.priority
            &&& line.subrange(3 + p, 5 + p) == "] "@
            &&& line.subrange(5 + p, 5 + p + t) == reminder.title
            &&& reminder.due is None ==> line.len() == p + t + 5
            &&& reminder.due matches Some(due) ==> line.skip(5 + p + t) == " (due "@ + due + ")"@
        }),
{
    let line = proactive::reminder_line(reminder);
    let p = reminder.priority.len() as int;
    let t = reminder.title.len() as int;
    reveal_strlit("- [");
    reveal_strlit("] ");
    assert(line.take(3) =~= "- ["@);
    assert(line.subrange(3, 3 + p) =~= reminder.priority);
    assert(line.subrange(3 + p, 5 + p) =~= "] "@);
    assert(line.subrange(5 + p, 5 + p + t) =~= reminder.title);
    if let Some(due) = reminder.due {
        assert(line.skip(5 + p + t) =~= " (due "@ + due + ")"@);
    }
}

/// Hosted tools silence the local todo list. Otherwise at most ten todos are
/// reminded of, those that stand first; each priority has a name of its own.
pub proof fn law_ten_reminders_at_most(
    todos: Seq<ActiveReminderView>,
    settings: Settings,
    a: TodoPriority,
    b: TodoPriority,
)
    ensures
        settings.hosted_plugins.replace_local_todos ==> brainstem::reminders_of(
            todos,
            settings,
        ).len() == 0,
        !settings.hosted_plugins.replace_local_todos && todos.len() <= 10
            ==> brainstem::reminders_of(todos, settings) == proactive::reminder_lines(
            todos,
            todos.len(),
        ),
        !settings.hosted_plugins.replace_local_todos && todos.len() > 10
            ==> brainstem::reminders_of(todos, settings) == brainstem::reminders_of(
            todos.take(10),
            settings,
        ),
        brainstem::priority_text(TodoPriority::High) == "high"@,
        brainstem::priority_text(TodoPriority::Normal) == "normal"@,
        brainstem::priority_text(TodoPriority::Low) == "low"@,
        brainstem::priority_text(a) == brainstem::priority_text(b) ==> a == b,
{
    reveal_strlit("low");
    reveal_strlit("normal");
    reveal_strlit("high");
    assert("low"@.len() == 3 && "normal"@.len() == 6 && "high"@.len() == 4);
    if todos.len() > 10 {
        assert(Seq::new(10, |i: int| proactive::reminder_line(todos[i])) =~= Seq::new(
            10,
            |i: int| proactive::reminder_line(todos.take(10)[i]),
        ));
    }
}

/// Every notification with words reaches the user in a beat, in the order of
/// the background pass and whatever the limiter says, each without the white
/// space around it.
pub proof fn law_background_reaches_the_user(
    beat: Beat,
    notifications: Seq<BackgroundNotificationView>,
    action: HeartbeatAction,
    message: Seq<char>,
    now: i64,
    i: int,
)
    requires
        0 <= i < notifications.len(),
        !text::blank(notifications[i].signal.content),
    ensures
        ({
            let after = brainstem::concluded(
                beat,
                background::user_texts(notifications),
                action,
                message,
                now,
            );
            let at = beat.outcome.messages.len() + notifications.take(i).filter(
                |n: BackgroundNotificationView| !text::blank(n.signal.content),
            ).len();
            &&& at < after.outcome.messages.len()
            &&& after.outcome.messages[at as int] == text::trimmed(notifications[i].signal.content)
        }),
{
    let texts = background::user_texts(notifications);
    background::law_user_messages_in_order(notifications, i);
    law_heartbeat_message_gets_what_is_left(beat, texts, action, message, now);
}

} // verus!
