//! Brainstem: the single source of periodic beats, urges, and proactive
//! emissions. It decides what a beat does; whoever runs the loop talks to the
//! model, to storage and to the transports between the decisions.
//!
//! One beat goes through [`open_beat`], [`survey_beat`] and, unless it is
//! idle, [`conclude_beat`].
use vstd::prelude::*;
use vstd::string::*;

use crate::actor::background;
use crate::actor::background::BackgroundResult;
use crate::config::Settings;
use crate::scheduler::proactive;
use crate::scheduler::proactive::ActiveReminder;
use crate::scheduler::proactive::ActiveReminderView;
use crate::scheduler::proactive::LimiterView;
use crate::scheduler::proactive::ProactiveOutbox;
use crate::scheduler::proactive::ProactiveRateLimiter;
use crate::scheduler::proactive::format_active_reminders;
use crate::text;
use crate::text::is_blank;
use crate::text::trim;

verus! {

/// How many emissions wait for a subscriber before the oldest are lost.
pub const EMISSION_QUEUE_DEPTH: usize = 64;

/// What the heartbeat is told when a beat was idle.
pub const IDLE_RESPONSE: &'static str = "{\"action\":\"idle\",\"message\":\"\"}";

/// The kinds of emissions.
#[derive(Clone, Copy, Debug, PartialEq, Eq, Structural)]
pub enum BrainstemEmissionKind {
    Proactive,
}

/// A user-visible emission from the brainstem.
#[derive(Debug)]
pub struct BrainstemEmission {
    pub kind: BrainstemEmissionKind,
    pub message: String,
}

/// What a [`BrainstemEmission`] holds.
pub struct BrainstemEmissionView {
    pub kind: BrainstemEmissionKind,
    pub message: Seq<char>,
}

impl View for BrainstemEmission {
    type V = BrainstemEmissionView;

    open spec fn view(&self) -> BrainstemEmissionView {
        BrainstemEmissionView { kind: self.kind, message: self.message@ }
    }
}

impl Clone for BrainstemEmission {
    fn clone(&self) -> (r: BrainstemEmission)
        ensures
            r@ == self@,
    {
        BrainstemEmission { kind: self.kind, message: self.message.clone() }
    }
}

/// The emissions of a beat: one for each of its messages.
pub open spec fn emissions_of(messages: Seq<Seq<char>>) -> Seq<BrainstemEmissionView> {
    Seq::new(
        messages.len(),
        |i: int|
            BrainstemEmissionView {
                kind: BrainstemEmissionKind::Proactive,
                message: messages[i],
            },
    )
}

/// The emission of one message.
pub fn emit_proactive(message: &str) -> (r: BrainstemEmission)
    ensures
        r@ == (BrainstemEmissionView {
            kind: BrainstemEmissionKind::Proactive,
            message: message@,
        }),
{
    BrainstemEmission { kind: BrainstemEmissionKind::Proactive, message: message.to_owned() }
}

/// The emissions of a beat, in order.
pub fn emissions(outcome: &BeatOutcome) -> (r: Vec<BrainstemEmission>)
    ensures
        text::views(r@) == emissions_of(outcome@.messages),
{
    let mut out: Vec<BrainstemEmission> = Vec::new();
    let mut i: usize = 0;
    while i < outcome.messages.len()
        invariant
            i <= outcome.messages.len(),
            out.len() == i,
            forall|k: int|
                0 <= k < i ==> (#[trigger] out@[k])@ == emissions_of(outcome@.messages)[k],
        decreases outcome.messages.len() - i,
    {
        out.push(emit_proactive(outcome.messages[i].as_str()));
        i = i + 1;
    }
    assert(text::views(out@) =~= emissions_of(outcome@.messages));
    out
}

/// The first message of a beat, if it brought any.
pub open spec fn first_message(messages: Seq<Seq<char>>) -> Option<Seq<char>> {
    if messages.len() > 0 {
        Some(messages[0])
    } else {
        None
    }
}

/// What a beat that was triggered by hand reports: its first message, if it
/// brought any.
pub fn triggered_message(outcome: &BeatOutcome) -> (r: Option<String>)
    ensures
        text::opt_view(r) == first_message(outcome@.messages),
{
    if outcome.messages.len() > 0 {
        assert(outcome@.messages[0] == outcome.messages@[0]@);
        Some(outcome.messages[0].clone())
    } else {
        None
    }
}

/// The seconds between two beats; none when the heartbeat is switched off.
pub open spec fn interval_of(settings: Settings) -> Option<u64> {
    if !settings.background.heartbeat_enabled {
        None
    } else if settings.background.heartbeat_interval_seconds < 1 {
        Some(1)
    } else {
        Some(settings.background.heartbeat_interval_seconds)
    }
}

/// The seconds between two beats, at least one; none when the heartbeat is
/// switched off, and the loop is dormant.
pub fn beat_interval(settings: &Settings) -> (r: Option<u64>)
    ensures
        r == interval_of(*settings),
{
    if !settings.background.heartbeat_enabled {
        None
    } else if settings.background.heartbeat_interval_seconds < 1 {
        Some(1)
    } else {
        Some(settings.background.heartbeat_interval_seconds)
    }
}

/// Whether a beat can skip the model entirely.
pub open spec fn idle(
    first_tick: bool,
    use_full_context: bool,
    reminders: Seq<char>,
    open_work: Seq<char>,
) -> bool {
    !first_tick && !use_full_context && text::blank(reminders) && text::blank(open_work)
}

/// True when this tick can skip the model entirely. A tick is only idle when
/// there is nothing to act on: no due reminders AND no unfinished work.
pub fn is_idle_tick(
    first_tick: bool,
    use_full_context: bool,
    reminders: &str,
    open_work: &str,
) -> (r: bool)
    ensures
        r == idle(first_tick, use_full_context, reminders@, open_work@),
{
    !first_tick && !use_full_context && is_blank(reminders) && is_blank(open_work)
}

/// What the heartbeat remembers between beats.
#[derive(Clone, Copy, Debug, PartialEq, Eq, Structural)]
pub struct HeartbeatState {
    pub heartbeat_count: u64,
}

/// What the heartbeat asks the model.
#[derive(Debug)]
pub struct HeartbeatPrompt {
    pub message: String,
    pub first_tick: bool,
    pub use_full_context: bool,
}

/// What the model wants to do after a heartbeat.
#[derive(Clone, Copy, Debug, PartialEq, Eq, Structural)]
pub enum HeartbeatAction {
    Idle,
    Send,
}

/// What the model answered to a heartbeat.
#[derive(Debug)]
pub struct HeartbeatOutcome {
    pub action: HeartbeatAction,
    pub message: String,
}

/// The state that a beat loop threads through its beats. A host may store it
/// between beats; [`BeatState::restored`] then brings the settings up to date.
#[derive(Debug)]
pub struct BeatState {
    pub heartbeat: HeartbeatState,
    pub limiter: ProactiveRateLimiter,
    pub outbox: ProactiveOutbox,
}

/// What a [`BeatState`] holds.
pub struct BeatStateView {
    pub heartbeat: HeartbeatState,
    pub limiter: LimiterView,
    pub outbox: Option<Seq<char>>,
}

impl View for BeatState {
    type V = BeatStateView;

    open spec fn view(&self) -> BeatStateView {
        BeatStateView {
            heartbeat: self.heartbeat,
            limiter: self.limiter@,
            outbox: self.outbox@,
        }
    }
}

impl Clone for BeatState {
    fn clone(&self) -> (r: BeatState)
        ensures
            r@ == self@,
    {
        BeatState {
            heartbeat: self.heartbeat,
            limiter: self.limiter.clone(),
            outbox: self.outbox.clone(),
        }
    }
}

/// A stored state under new settings: the limits are those of the settings,
/// everything else is as it was stored.
pub open spec fn under_settings(state: BeatStateView, settings: Settings) -> BeatStateView {
    let fresh = proactive::fresh_limiter(settings);
    BeatStateView {
        limiter: LimiterView {
            max_per_day: fresh.max_per_day,
            cooldown_seconds: fresh.cooldown_seconds,
            ..state.limiter
        },
        ..state
    }
}

impl BeatState {
    /// The state before the first beat.
    pub fn new(settings: &Settings) -> (r: BeatState)
        ensures
            r@ == (BeatStateView {
                heartbeat: HeartbeatState { heartbeat_count: 0 },
                limiter: proactive::fresh_limiter(*settings),
                outbox: None,
            }),
    {
        BeatState {
            heartbeat: HeartbeatState { heartbeat_count: 0 },
            limiter: ProactiveRateLimiter::from_settings(settings),
            outbox: ProactiveOutbox::new(),
        }
    }

    /// Rebuilds from stored state, re-deriving every config-like field from
    /// current settings so tuning changes apply without state migrations.
    pub fn restored(self, settings: &Settings) -> (r: BeatState)
        ensures
            r@ == under_settings(self@, *settings),
    {
        let fresh = ProactiveRateLimiter::from_settings(settings);
        let mut state = self;
        state.limiter.max_per_day = fresh.max_per_day;
        state.limiter.cooldown_seconds = fresh.cooldown_seconds;
        state
    }
}

/// What one beat decided. `messages` are user-facing texts the caller must
/// deliver and record; `idle` means the model was skipped; `open_work` reports
/// whether unfinished work existed at beat time.
#[derive(Debug)]
pub struct BeatOutcome {
    pub messages: Vec<String>,
    pub idle: bool,
    pub open_work: bool,
}

/// What a [`BeatOutcome`] holds.
pub struct BeatOutcomeView {
    pub messages: Seq<Seq<char>>,
    pub idle: bool,
    pub open_work: bool,
}

impl View for BeatOutcome {
    type V = BeatOutcomeView;

    open spec fn view(&self) -> BeatOutcomeView {
        BeatOutcomeView {
            messages: text::views(self.messages@),
            idle: self.idle,
            open_work: self.open_work,
        }
    }
}

impl Clone for BeatOutcome {
    fn clone(&self) -> (r: BeatOutcome)
        ensures
            r@ == self@,
    {
        let messages = self.messages.clone();
        assert(text::views(messages@) =~= text::views(self.messages@));
        BeatOutcome { messages, idle: self.idle, open_work: self.open_work }
    }
}

impl Default for BeatOutcome {
    /// A beat that has decided nothing yet.
    fn default() -> (r: BeatOutcome)
        ensures
            r@ == (BeatOutcomeView {
                messages: Seq::empty(),
                idle: false,
                open_work: false,
            }),
    {
        let messages: Vec<String> = Vec::new();
        assert(text::views(messages@) =~= Seq::empty());
        BeatOutcome { messages, idle: false, open_work: false }
    }
}

/// A beat as it goes on: the state it leaves and what it has decided.
pub struct Beat {
    pub state: BeatStateView,
    pub outcome: BeatOutcomeView,
}

/// The beat after one more delivery: counted against the limit, and added to
/// the messages.
pub open spec fn with_delivery(beat: Beat, message: Seq<char>, now: i64) -> Beat {
    Beat {
        state: BeatStateView {
            limiter: proactive::counted(beat.state.limiter, now),
            ..beat.state
        },
        outcome: BeatOutcomeView {
            messages: beat.outcome.messages.push(message),
            ..beat.outcome
        },
    }
}

/// The beat after deliveries of all the messages, in order.
pub open spec fn with_deliveries(beat: Beat, messages: Seq<Seq<char>>, now: i64) -> Beat
    decreases messages.len(),
{
    if messages.len() == 0 {
        beat
    } else {
        with_delivery(
            with_deliveries(beat, messages.drop_last(), now),
            messages.last(),
            now,
        )
    }
}

/// Counts a delivery against the rate limiter and adds it to the messages.
pub fn deliver(
    limiter: &mut ProactiveRateLimiter,
    messages: &mut Vec<String>,
    message: &str,
    now: i64,
)
    ensures
        final(limiter)@ == proactive::counted(old(limiter)@, now),
        text::views(final(messages)@) == text::views(old(messages)@).push(message@),
{
    limiter.record_at(now);
    let copy = message.to_owned();
    proof {
        text::lemma_views_push(messages@, copy);
    }
    messages.push(copy);
}

/// The start of a beat: a message that waited is delivered when the limiter
/// allows it.
pub open spec fn opened(state: BeatStateView, now: i64) -> Beat {
    let start = Beat {
        state,
        outcome: BeatOutcomeView { messages: Seq::empty(), idle: false, open_work: false },
    };
    match state.outbox {
        Some(message) => if proactive::allows(state.limiter, now) {
            with_delivery(
                Beat { state: BeatStateView { outbox: None, ..state }, ..start },
                message,
                now,
            )
        } else {
            start
        },
        None => start,
    }
}

/// Starts a beat. A previously rate-limited message gets first claim on this
/// beat's send budget, even when the beat itself goes idle.
pub fn open_beat(state: &mut BeatState, now: i64) -> (r: BeatOutcome)
    ensures
        (Beat { state: final(state)@, outcome: r@ }) == opened(old(state)@, now),
{
    let mut outcome = BeatOutcome::default();
    assert(outcome@.messages =~= Seq::empty());
    if let Some(deferred) = state.outbox.take_ready(&state.limiter, now) {
        deliver(&mut state.limiter, &mut outcome.messages, deferred.as_str(), now);
    }
    outcome
}

/// What a beat does next.
#[derive(Clone, Copy, Debug, PartialEq, Eq, Structural)]
pub enum BeatStep {
    /// The beat is over without asking the model.
    Rest,
    /// The model is asked.
    Converse,
}

/// The beat once reminders and open work are known: it notes whether there is
/// open work, and is over when there is nothing to act on. `resting` is what
/// the heartbeat then remembers.
pub open spec fn surveyed(
    beat: Beat,
    first_tick: bool,
    use_full_context: bool,
    reminders: Seq<char>,
    open_work: Seq<char>,
    resting: HeartbeatState,
) -> (Beat, BeatStep) {
    let noted = BeatOutcomeView { open_work: !text::blank(open_work), ..beat.outcome };
    if idle(first_tick, use_full_context, reminders, open_work) {
        (
            Beat {
                state: BeatStateView { heartbeat: resting, ..beat.state },
                outcome: BeatOutcomeView { idle: true, ..noted },
            },
            BeatStep::Rest,
        )
    } else {
        (Beat { outcome: noted, ..beat }, BeatStep::Converse)
    }
}

/// Decides whether the beat asks the model.
pub fn survey_beat(
    state: &mut BeatState,
    outcome: &mut BeatOutcome,
    prompt: &HeartbeatPrompt,
    reminders: &str,
    open_work: &str,
    resting: HeartbeatState,
) -> (r: BeatStep)
    ensures
        (Beat { state: final(state)@, outcome: final(outcome)@ }, r) == surveyed(
            Beat { state: old(state)@, outcome: old(outcome)@ },
            prompt.first_tick,
            prompt.use_full_context,
            reminders@,
            open_work@,
            resting,
        ),
{
    outcome.open_work = !is_blank(open_work);
    if is_idle_tick(prompt.first_tick, prompt.use_full_context, reminders, open_work) {
        state.heartbeat = resting;
        outcome.idle = true;
        BeatStep::Rest
    } else {
        BeatStep::Converse
    }
}

/// The state once the model has answered: the heartbeat remembers the answer,
/// and everything else waits for the end of the beat.
pub open spec fn with_answer(state: BeatStateView, remembered: HeartbeatState) -> BeatStateView {
    BeatStateView { heartbeat: remembered, ..state }
}

/// Notes what the heartbeat remembers of the model's answer.
pub fn answered(state: &mut BeatState, remembered: HeartbeatState)
    ensures
        final(state)@ == with_answer(old(state)@, remembered),
{
    state.heartbeat = remembered;
}

/// The end of a beat: what the background pass brought is delivered; then what
/// the model wants to send, or it waits when the limiter does not allow it.
pub open spec fn concluded(
    beat: Beat,
    notifications: Seq<Seq<char>>,
    action: HeartbeatAction,
    message: Seq<char>,
    now: i64,
) -> Beat {
    let informed = with_deliveries(beat, notifications, now);
    if action != HeartbeatAction::Send || text::blank(message) {
        informed
    } else if proactive::allows(informed.state.limiter, now) {
        with_delivery(informed, text::trimmed(message), now)
    } else {
        Beat {
            state: BeatStateView { outbox: Some(text::trimmed(message)), ..informed.state },
            ..informed
        }
    }
}

/// Ends a beat in which the model was asked. Rate-limited is not silenced: a
/// message that may not be sent now is held for a later beat.
pub fn conclude_beat(
    state: &mut BeatState,
    outcome: &mut BeatOutcome,
    background: &BackgroundResult,
    answer: &HeartbeatOutcome,
    now: i64,
)
    ensures
        (Beat { state: final(state)@, outcome: final(outcome)@ }) == concluded(
            Beat { state: old(state)@, outcome: old(outcome)@ },
            background::user_texts(text::views(background.notifications@)),
            answer.action,
            answer.message@,
            now,
        ),
{
    let ghost start = Beat { state: state@, outcome: outcome@ };
    let notifications = background.user_messages();
    let ghost all = text::views(notifications@);
    let mut i: usize = 0;
    assert(all.take(0) =~= Seq::empty());
    while i < notifications.len()
        invariant
            i <= notifications.len(),
            all == text::views(notifications@),
            (Beat { state: state@, outcome: outcome@ }) == with_deliveries(
                start,
                all.take(i as int),
                now,
            ),
        decreases notifications.len() - i,
    {
        assert(all.take(i + 1).drop_last() =~= all.take(i as int));
        assert(all.take(i + 1).last() == notifications@[i as int]@);
        deliver(&mut state.limiter, &mut outcome.messages, notifications[i].as_str(), now);
        i = i + 1;
    }
    assert(all.take(all.len() as int) =~= all);
    if answer.action == HeartbeatAction::Send {
        let trimmed = trim(answer.message.as_str());
        proof {
            text::lemma_trimmed_empty(answer.message@);
        }
        if !trimmed.is_empty() {
            if state.limiter.allowed_at(now) {
                deliver(&mut state.limiter, &mut outcome.messages, trimmed, now);
            } else {
                state.outbox.defer(trimmed);
            }
        }
    }
}

/// Ends a tick of the loop, whose beat ran on a copy of its state. A beat that
/// failed leaves the state as it was and emits nothing; otherwise the state is
/// the one that the beat left, and every message is emitted.
pub fn close_tick(
    state: &mut BeatState,
    beaten: BeatState,
    outcome: Result<BeatOutcome, String>,
) -> (r: Result<Vec<BrainstemEmission>, String>)
    ensures
        match outcome {
            Ok(o) => final(state)@ == beaten@ && (r matches Ok(out) && text::views(out@)
                == emissions_of(o@.messages)),
            Err(error) => final(state)@ == old(state)@ && (r matches Err(e) && e@ == error@),
        },
{
    match outcome {
        Ok(outcome) => {
            *state = beaten;
            Ok(emissions(&outcome))
        },
        Err(error) => Err(error),
    }
}

/// What the loop does after a tick.
#[derive(Clone, Copy, Debug, PartialEq, Eq, Structural)]
pub enum LoopStep {
    /// Wait for the next tick.
    Continue,
    /// Return.
    Stop,
}

/// What the loop does after a tick: it returns when the beat failed, or when
/// the broadcast has lost all its subscribers. `before` and `now` are their
/// numbers when the loop last looked and now; a broadcast that nobody has
/// subscribed to yet has lost none.
pub fn after_tick(failed: bool, before: usize, now: usize) -> (r: LoopStep)
    ensures
        r == LoopStep::Stop <==> failed || (before > 0 && now == 0),
{
    if failed || (before > 0 && now == 0) {
        LoopStep::Stop
    } else {
        LoopStep::Continue
    }
}

/// How pressing a todo is.
#[derive(Clone, Copy, Debug, PartialEq, Eq, Structural)]
pub enum TodoPriority {
    Low,
    Normal,
    High,
}

/// The name of a priority.
pub open spec fn priority_text(priority: TodoPriority) -> Seq<char> {
    match priority {
        TodoPriority::Low => "low"@,
        TodoPriority::Normal => "normal"@,
        TodoPriority::High => "high"@,
    }
}

impl TodoPriority {
    /// The name of the priority.
    pub fn as_str(self) -> (r: &'static str)
        ensures
            r@ == priority_text(self),
    {
        match self {
            TodoPriority::Low => "low",
            TodoPriority::Normal => "normal",
            TodoPriority::High => "high",
        }
    }
}

/// A todo.
#[derive(Debug)]
pub struct Todo {
    pub title: String,
    pub priority: TodoPriority,
    pub due_date: Option<String>,
}

impl View for Todo {
    type V = ActiveReminderView;

    open spec fn view(&self) -> ActiveReminderView {
        ActiveReminderView {
            title: self.title@,
            priority: priority_text(self.priority),
            due: text::opt_view(self.due_date),
        }
    }
}

/// Which todos a listing asks for.
#[derive(Clone, Copy, Debug, PartialEq, Eq, Structural)]
pub struct TodoFilter {
    pub include_completed: bool,
    pub limit: usize,
}

/// The todos that reminders are drawn from.
pub fn reminder_filter() -> (r: TodoFilter)
    ensures
        r == (TodoFilter { include_completed: false, limit: 20 }),
{
    TodoFilter { include_completed: false, limit: 20 }
}

/// The reminders of a beat: none when hosted tools take the place of the
/// local todo list, and otherwise at most ten of the listed todos.
pub open spec fn reminders_of(todos: Seq<ActiveReminderView>, settings: Settings) -> Seq<char> {
    if settings.hosted_plugins.replace_local_todos {
        Seq::empty()
    } else {
        proactive::reminder_lines(todos, 10)
    }
}

/// The reminders of a beat, from the todos that [`reminder_filter`] lists.
pub fn active_reminders(todos: &Vec<Todo>, settings: &Settings) -> (r: String)
    ensures
        r@ == reminders_of(text::views(todos@), *settings),
{
    if settings.hosted_plugins.replace_local_todos {
        return String::new();
    }
    let mut reminders: Vec<ActiveReminder> = Vec::new();
    let mut i: usize = 0;
    while i < todos.len()
        invariant
            i <= todos.len(),
            reminders.len() == i,
            forall|k: int| 0 <= k < i ==> (#[trigger] reminders@[k])@ == todos@[k]@,
        decreases todos.len() - i,
    {
        let todo = &todos[i];
        reminders.push(
            ActiveReminder {
                title: todo.title.clone(),
                priority: todo.priority.as_str().to_owned(),
                due: todo.due_date.clone(),
            },
        );
        i = i + 1;
    }
    assert(text::views(reminders@) =~= text::views(todos@));
    format_active_reminders(&reminders, 10)
}

} // verus!
