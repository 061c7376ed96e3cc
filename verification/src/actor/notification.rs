//! Signals that background work raises for the user, and the notification gate that
//! decides which of them may interrupt.
use vstd::prelude::*;
use vstd::string::*;

use crate::clock::Timestamp;
use crate::json;
use crate::json::JsonMember;
use crate::json::Members;
use crate::json::MembersView;
use crate::json::copy_members;
use crate::json::find_member;
use crate::text;
use crate::text::same_text;

verus! {

/// Which part of the agent raised a signal.
#[derive(Clone, Copy, Debug, PartialEq, Eq, Structural)]
pub enum NotificationSource {
    Dmn,
    Brainstem,
    Actor,
}

/// What a signal is about.
#[derive(Clone, Copy, Debug, PartialEq, Eq, Structural)]
pub enum NotificationCategory {
    Reminder,
    Warning,
    Insight,
    Info,
}

/// How much a signal presses.
#[derive(Clone, Copy, Debug, PartialEq, Eq, Structural)]
pub enum NotificationUrgency {
    Low,
    Normal,
    High,
}

/// The source that an actor of this name stands for.
pub open spec fn source_named(name: Seq<char>) -> NotificationSource {
    if name == "dmn"@ {
        NotificationSource::Dmn
    } else if name == "brainstem"@ {
        NotificationSource::Brainstem
    } else {
        NotificationSource::Actor
    }
}

/// The name of a category.
pub open spec fn category_text(category: NotificationCategory) -> Seq<char> {
    match category {
        NotificationCategory::Reminder => "reminder"@,
        NotificationCategory::Warning => "warning"@,
        NotificationCategory::Insight => "insight"@,
        NotificationCategory::Info => "info"@,
    }
}

/// The category of this name; plain information for any other name.
pub open spec fn category_named(name: Seq<char>) -> NotificationCategory {
    if name == "reminder"@ {
        NotificationCategory::Reminder
    } else if name == "warning"@ {
        NotificationCategory::Warning
    } else if name == "insight"@ {
        NotificationCategory::Insight
    } else {
        NotificationCategory::Info
    }
}

/// The name of an urgency.
pub open spec fn urgency_text(urgency: NotificationUrgency) -> Seq<char> {
    match urgency {
        NotificationUrgency::Low => "low"@,
        NotificationUrgency::Normal => "normal"@,
        NotificationUrgency::High => "high"@,
    }
}

/// The urgency of signals that do not say how urgent they are: reminders and
/// warnings press, insights and information do not.
pub open spec fn default_urgency(category: NotificationCategory) -> NotificationUrgency {
    match category {
        NotificationCategory::Reminder => NotificationUrgency::Normal,
        NotificationCategory::Warning => NotificationUrgency::Normal,
        NotificationCategory::Insight => NotificationUrgency::Low,
        NotificationCategory::Info => NotificationUrgency::Low,
    }
}

/// The urgency of this name; the default of the category for any other name.
pub open spec fn urgency_named(
    name: Option<Seq<char>>,
    category: NotificationCategory,
) -> NotificationUrgency {
    if name == Some("low"@) {
        NotificationUrgency::Low
    } else if name == Some("normal"@) {
        NotificationUrgency::Normal
    } else if name == Some("high"@) {
        NotificationUrgency::High
    } else {
        default_urgency(category)
    }
}

impl NotificationSource {
    /// The source that an actor of this name stands for.
    pub fn named(name: &str) -> (r: NotificationSource)
        ensures
            r == source_named(name@),
    {
        if same_text(name, "dmn") {
            NotificationSource::Dmn
        } else if same_text(name, "brainstem") {
            NotificationSource::Brainstem
        } else {
            NotificationSource::Actor
        }
    }
}

impl NotificationCategory {
    /// The name of the category.
    pub fn as_str(self) -> (r: &'static str)
        ensures
            r@ == category_text(self),
    {
        match self {
            NotificationCategory::Reminder => "reminder",
            NotificationCategory::Warning => "warning",
            NotificationCategory::Insight => "insight",
            NotificationCategory::Info => "info",
        }
    }

    /// The category of this name; plain information for any other name.
    pub fn named(name: &str) -> (r: NotificationCategory)
        ensures
            r == category_named(name@),
    {
        if same_text(name, "reminder") {
            NotificationCategory::Reminder
        } else if same_text(name, "warning") {
            NotificationCategory::Warning
        } else if same_text(name, "insight") {
            NotificationCategory::Insight
        } else {
            NotificationCategory::Info
        }
    }
}

impl NotificationUrgency {
    /// The name of the urgency.
    pub fn as_str(self) -> (r: &'static str)
        ensures
            r@ == urgency_text(self),
    {
        match self {
            NotificationUrgency::Low => "low",
            NotificationUrgency::Normal => "normal",
            NotificationUrgency::High => "high",
        }
    }

    /// The urgency of this name; the default of the category for any other
    /// name.
    pub fn named(name: Option<&str>, category: NotificationCategory) -> (r: NotificationUrgency)
        ensures
            r == urgency_named(
                match name {
                    Some(n) => Some(n@),
                    None => None,
                },
                category,
            ),
    {
        if let Some(name) = name {
            if same_text(name, "low") {
                return NotificationUrgency::Low;
            }
            if same_text(name, "normal") {
                return NotificationUrgency::Normal;
            }
            if same_text(name, "high") {
                return NotificationUrgency::High;
            }
        }
        match category {
            NotificationCategory::Reminder => NotificationUrgency::Normal,
            NotificationCategory::Warning => NotificationUrgency::Normal,
            NotificationCategory::Insight => NotificationUrgency::Low,
            NotificationCategory::Info => NotificationUrgency::Low,
        }
    }
}

/// Something that background work wants the user to know.
#[derive(Debug, PartialEq)]
pub struct UserNotificationSignal {
    pub event_id: String,
    pub source: NotificationSource,
    pub source_name: String,
    pub source_actor_id: String,
    pub category: NotificationCategory,
    pub urgency: NotificationUrgency,
    pub content: String,
    pub metadata: Members,
    pub observed_at: Timestamp,
}

/// What a [`UserNotificationSignal`] holds.
pub struct SignalView {
    pub event_id: Seq<char>,
    pub source: NotificationSource,
    pub source_name: Seq<char>,
    pub source_actor_id: Seq<char>,
    pub category: NotificationCategory,
    pub urgency: NotificationUrgency,
    pub content: Seq<char>,
    pub metadata: MembersView,
    pub observed_at: (i64, u32),
}

impl View for UserNotificationSignal {
    type V = SignalView;

    open spec fn view(&self) -> SignalView {
        SignalView {
            event_id: self.event_id@,
            source: self.source,
            source_name: self.source_name@,
            source_actor_id: self.source_actor_id@,
            category: self.category,
            urgency: self.urgency,
            content: self.content@,
            metadata: text::views(self.metadata@),
            observed_at: self.observed_at@,
        }
    }
}

impl Clone for UserNotificationSignal {
    fn clone(&self) -> (r: UserNotificationSignal)
        ensures
            r@ == self@,
    {
        UserNotificationSignal {
            event_id: self.event_id.clone(),
            source: self.source,
            source_name: self.source_name.clone(),
            source_actor_id: self.source_actor_id.clone(),
            category: self.category,
            urgency: self.urgency,
            content: self.content.clone(),
            metadata: copy_members(&self.metadata),
            observed_at: self.observed_at,
        }
    }
}

/// The signal that an event stands for. The metadata may name category and
/// urgency; without that, `kind` names the category.
pub open spec fn signal_of(
    event_id: Seq<char>,
    source_name: Seq<char>,
    source_actor_id: Seq<char>,
    kind: Seq<char>,
    content: Seq<char>,
    metadata: MembersView,
    observed_at: (i64, u32),
) -> SignalView {
    let category = category_named(
        match json::as_text(json::member(metadata, "signal_category"@)) {
            Some(name) => name,
            None => kind,
        },
    );
    SignalView {
        event_id,
        source: source_named(source_name),
        source_name,
        source_actor_id,
        category,
        urgency: urgency_named(
            json::as_text(json::member(metadata, "signal_urgency"@)),
            category,
        ),
        content,
        metadata,
        observed_at,
    }
}

fn member_text<'a>(members: &'a Members, name: &str) -> (r: Option<&'a str>)
    ensures
        match r {
            Some(t) => json::as_text(json::member(text::views(members@), name@)) == Some(t@),
            None => json::as_text(json::member(text::views(members@), name@)) is None,
        },
{
    match find_member(members, name) {
        Some(JsonMember::Text(t)) => Some(t.as_str()),
        _ => None,
    }
}

impl UserNotificationSignal {
    /// The signal that an event stands for.
    pub fn new(
        event_id: String,
        source_name: String,
        source_actor_id: String,
        kind: &str,
        content: String,
        metadata: Members,
        observed_at: Timestamp,
    ) -> (r: UserNotificationSignal)
        ensures
            r@ == signal_of(
                event_id@,
                source_name@,
                source_actor_id@,
                kind@,
                content@,
                text::views(metadata@),
                observed_at@,
            ),
    {
        let category = match member_text(&metadata, "signal_category") {
            Some(name) => NotificationCategory::named(name),
            None => NotificationCategory::named(kind),
        };
        let urgency = NotificationUrgency::named(
            member_text(&metadata, "signal_urgency"),
            category,
        );
        UserNotificationSignal {
            event_id,
            source: NotificationSource::named(source_name.as_str()),
            source_name,
            source_actor_id,
            category,
            urgency,
            content,
            metadata,
            observed_at,
        }
    }
}

/// How much a signal matters to the user.
#[derive(Clone, Copy, Debug, PartialEq, Eq, Structural)]
pub enum Relevance {
    Low,
    High,
}

/// What scoring says of a signal.
#[derive(Clone, Copy, Debug, PartialEq, Eq, Structural)]
pub struct NotificationAssessment {
    pub relevance: Relevance,
}

/// The assessment of a signal: reminders and warnings matter, insights and
/// information much less.
pub open spec fn assessment_of(signal: SignalView) -> NotificationAssessment {
    NotificationAssessment {
        relevance: match signal.category {
            NotificationCategory::Reminder => Relevance::High,
            NotificationCategory::Warning => Relevance::High,
            NotificationCategory::Insight => Relevance::Low,
            NotificationCategory::Info => Relevance::Low,
        },
    }
}

/// Scores signals.
pub struct NotificationScoring;

impl NotificationScoring {
    /// The assessment of a signal.
    pub fn assess(&self, signal: &UserNotificationSignal) -> (r: NotificationAssessment)
        ensures
            r == assessment_of(signal@),
    {
        let relevance = match signal.category {
            NotificationCategory::Reminder => Relevance::High,
            NotificationCategory::Warning => Relevance::High,
            NotificationCategory::Insight => Relevance::Low,
            NotificationCategory::Info => Relevance::Low,
        };
        NotificationAssessment { relevance }
    }
}

/// What the notification gate does with a signal.
#[derive(Clone, Copy, Debug, PartialEq, Eq, Structural)]
pub enum GateAction {
    /// The signal may interrupt the user, once its wording was reviewed.
    Review,
    /// The signal does not interrupt the user.
    Drop,
}

/// A decision of the notification gate and its reason.
#[derive(Debug, PartialEq)]
pub struct GateDecision {
    pub action: GateAction,
    pub reason: String,
}

/// What a [`GateDecision`] holds.
pub struct GateDecisionView {
    pub action: GateAction,
    pub reason: Seq<char>,
}

impl View for GateDecision {
    type V = GateDecisionView;

    open spec fn view(&self) -> GateDecisionView {
        GateDecisionView { action: self.action, reason: self.reason@ }
    }
}

impl Clone for GateDecision {
    fn clone(&self) -> (r: GateDecision)
        ensures
            r@ == self@,
    {
        GateDecision { action: self.action, reason: self.reason.clone() }
    }
}

/// A signal that the notification gate has seen.
#[derive(Debug)]
struct Remembered {
    category: NotificationCategory,
    content: String,
    at: i64,
}

/// What the notification gate remembers of a signal: its category, its content, and the
/// second in which it came.
pub struct RememberedView {
    pub category: NotificationCategory,
    pub content: Seq<char>,
    pub at: i64,
}

impl View for Remembered {
    type V = RememberedView;

    closed spec fn view(&self) -> RememberedView {
        RememberedView { category: self.category, content: self.content@, at: self.at }
    }
}

/// Decides which signals may interrupt the user.
#[derive(Debug)]
pub struct NotificationGate {
    window_seconds: i64,
    seen: Vec<Remembered>,
}

/// What a [`NotificationGate`] holds: for how many seconds a repetition
/// counts as one, and the signals it has seen.
pub struct GateView {
    pub window_seconds: i64,
    pub seen: Seq<RememberedView>,
}

impl View for NotificationGate {
    type V = GateView;

    closed spec fn view(&self) -> GateView {
        GateView { window_seconds: self.window_seconds, seen: text::views(self.seen@) }
    }
}

/// Whether the notification gate saw this signal before, within its window.
pub open spec fn duplicate(gate: GateView, signal: SignalView) -> bool {
    exists|i: int|
        0 <= i < gate.seen.len() && (#[trigger] gate.seen[i]).category == signal.category
            && gate.seen[i].content == signal.content && signal.observed_at.0 - gate.seen[i].at
            < gate.window_seconds
}

/// Whether a signal presses enough to interrupt.
pub open spec fn pressing(signal: SignalView, assessment: NotificationAssessment) -> bool {
    match signal.urgency {
        NotificationUrgency::High => true,
        NotificationUrgency::Normal => assessment.relevance == Relevance::High,
        NotificationUrgency::Low => false,
    }
}

/// What the notification gate decides.
pub open spec fn decision_of(
    gate: GateView,
    signal: SignalView,
    assessment: NotificationAssessment,
) -> GateDecisionView {
    if duplicate(gate, signal) {
        GateDecisionView { action: GateAction::Drop, reason: "duplicate_signal"@ }
    } else if pressing(signal, assessment) {
        GateDecisionView { action: GateAction::Review, reason: "user_relevant"@ }
    } else {
        GateDecisionView { action: GateAction::Drop, reason: "low_urgency"@ }
    }
}

/// The notification gate after it has decided about a signal: it remembers every signal
/// that was not a repetition.
pub open spec fn gate_after(gate: GateView, signal: SignalView) -> GateView {
    if duplicate(gate, signal) {
        gate
    } else {
        GateView {
            seen: gate.seen.push(
                RememberedView {
                    category: signal.category,
                    content: signal.content,
                    at: signal.observed_at.0,
                },
            ),
            ..gate
        }
    }
}

impl NotificationGate {
    /// A gate that takes a signal for a repetition for `window_seconds`.
    pub fn new(window_seconds: i64) -> (r: NotificationGate)
        ensures
            r@ == (GateView { window_seconds, seen: Seq::empty() }),
    {
        let r = NotificationGate { window_seconds, seen: Vec::new() };
        assert(text::views(r.seen@) =~= Seq::empty());
        r
    }

    fn saw(&self, signal: &UserNotificationSignal) -> (r: bool)
        ensures
            r == duplicate(self@, signal@),
    {
        let now: i64 = signal.observed_at.seconds();
        let mut i: usize = 0;
        while i < self.seen.len()
            invariant
                i <= self.seen.len(),
                now == signal@.observed_at.0,
                forall|k: int|
                    0 <= k < i ==> !((#[trigger] self@.seen[k]).category == signal@.category
                        && self@.seen[k].content == signal@.content && now - self@.seen[k].at
                        < self@.window_seconds),
            decreases self.seen.len() - i,
        {
            let known = &self.seen[i];
            assert(self@.seen[i as int] == known@);
            if known.category == signal.category && known.content == signal.content && (now as i128)
                - (known.at as i128) < self.window_seconds as i128 {
                return true;
            }
            i = i + 1;
        }
        false
    }

    /// Decides about a signal, and remembers it.
    pub fn decide(
        &mut self,
        signal: &UserNotificationSignal,
        assessment: &NotificationAssessment,
    ) -> (r: GateDecision)
        ensures
            r@ == decision_of(old(self)@, signal@, *assessment),
            final(self)@ == gate_after(old(self)@, signal@),
    {
        if self.saw(signal) {
            return GateDecision {
                action: GateAction::Drop,
                reason: "duplicate_signal".to_owned(),
            };
        }
        let entry = Remembered {
            category: signal.category,
            content: signal.content.clone(),
            at: signal.observed_at.seconds(),
        };
        proof {
            text::lemma_views_push(self.seen@, entry);
        }
        self.seen.push(entry);
        let pressing = match signal.urgency {
            NotificationUrgency::High => true,
            NotificationUrgency::Normal => assessment.relevance == Relevance::High,
            NotificationUrgency::Low => false,
        };
        if pressing {
            GateDecision { action: GateAction::Review, reason: "user_relevant".to_owned() }
        } else {
            GateDecision { action: GateAction::Drop, reason: "low_urgency".to_owned() }
        }
    }
}

} // verus!
