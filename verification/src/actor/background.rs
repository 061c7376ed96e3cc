//! Background reflection: the default-mode-network actor, the notifications
//! it raises, and the two gates between them and the user.
use vstd::prelude::*;
use vstd::string::*;

use crate::actor::ActorError;
use crate::actor::ActorResult;
use crate::actor::activity_log::ActivityKind;
use crate::actor::activity_log::NewActivity;
use crate::actor::activity_log::NewActivityView;
use crate::actor::activity_log::compact_summary;
use crate::actor::notification;
use crate::actor::notification::GateAction;
use crate::actor::notification::GateDecision;
use crate::actor::notification::GateDecisionView;
use crate::actor::notification::NotificationAssessment;
use crate::actor::notification::NotificationCategory;
use crate::actor::notification::SignalView;
use crate::actor::notification::UserNotificationSignal;
use crate::actor::registry;
use crate::actor::registry::ActorConfig;
use crate::actor::registry::ActorConfigView;
use crate::actor::registry::ActorRegistry;
use crate::actor::registry::ActorRegistryView;
use crate::actor::registry::MessageIntent;
use crate::actor::registry::ModelTier;
use crate::json::JsonMember;
use crate::json::JsonMemberView;
use crate::json::Members;
use crate::json::MembersView;
use crate::text;
use crate::text::cap_text;
use crate::text::is_blank;
use crate::text::join_texts;
use crate::text::trim;

verus! {

/// The name of the actor that runs background reflection.
pub const DMN_ACTOR_NAME: &'static str = "dmn";

/// A signal with what scoring and the notification gate said of it.
#[derive(Debug, PartialEq)]
pub struct BackgroundNotification {
    pub signal: UserNotificationSignal,
    pub assessment: NotificationAssessment,
    pub decision: GateDecision,
}

/// What a [`BackgroundNotification`] holds.
pub struct BackgroundNotificationView {
    pub signal: SignalView,
    pub assessment: NotificationAssessment,
    pub decision: GateDecisionView,
}

impl View for BackgroundNotification {
    type V = BackgroundNotificationView;

    open spec fn view(&self) -> BackgroundNotificationView {
        BackgroundNotificationView {
            signal: self.signal@,
            assessment: self.assessment,
            decision: self.decision@,
        }
    }
}

impl Clone for BackgroundNotification {
    fn clone(&self) -> (r: BackgroundNotification)
        ensures
            r@ == self@,
    {
        BackgroundNotification {
            signal: self.signal.clone(),
            assessment: self.assessment,
            decision: self.decision.clone(),
        }
    }
}

/// Whether a character ends a sentence.
pub open spec fn ends_sentence(c: char) -> bool {
    c == '.' || c == '!' || c == '?'
}

/// The headline of an insight: its first sentence without the mark that ends
/// it, on one line and capped at 64 characters.
pub open spec fn title_of(content: Seq<char>) -> Seq<char> {
    text::capped(
        text::collapsed(content.take(text::first_at(content, |c: char| ends_sentence(c)) as int)),
        64,
        seq!['\u{2026}'],
    )
}

/// The ledger row for a notification.
pub open spec fn ledger_entry_of(n: BackgroundNotificationView) -> NewActivityView {
    NewActivityView {
        kind: ActivityKind::Insight,
        actor_id: Some(n.signal.source_actor_id),
        event_id: Some(n.signal.event_id),
        title: title_of(text::trimmed(n.signal.content)),
        summary: text::trimmed(n.signal.content),
        detail: None,
        category: Some(notification::category_text(n.signal.category)),
        urgency: Some(notification::urgency_text(n.signal.urgency)),
        source_name: n.signal.source_name,
        produced_at: n.signal.observed_at,
    }
}

impl BackgroundNotification {
    /// The text for the user.
    pub fn user_message(&self) -> (r: String)
        ensures
            r@ == text::trimmed(self@.signal.content),
    {
        trim(self.signal.content.as_str()).to_owned()
    }

    /// Whether this notification may interrupt the user. Gate-silenced
    /// insights are still collected for the ledger; the unseen-insight badge
    /// is their non-interrupting delivery channel.
    pub fn is_deliverable(&self) -> (r: bool)
        ensures
            r == (self@.decision.action == GateAction::Review),
    {
        self.decision.action == GateAction::Review
    }

    /// Whether this notification is an insight.
    pub fn is_insight(&self) -> (r: bool)
        ensures
            r == (self@.signal.category == NotificationCategory::Insight),
    {
        self.signal.category == NotificationCategory::Insight
    }

    /// The ledger row for this notification. Call only after the review gate
    /// has kept (and possibly rewritten) the content: `summary` must be the
    /// clean user-facing text, never raw reflection.
    pub fn ledger_entry(&self) -> (r: NewActivity)
        ensures
            r@ == ledger_entry_of(self@),
    {
        let content = trim(self.signal.content.as_str());
        NewActivity {
            kind: ActivityKind::Insight,
            actor_id: Some(self.signal.source_actor_id.clone()),
            event_id: Some(self.signal.event_id.clone()),
            title: insight_title(content),
            summary: content.to_owned(),
            detail: None,
            category: Some(self.signal.category.as_str().to_owned()),
            urgency: Some(self.signal.urgency.as_str().to_owned()),
            source_name: self.signal.source_name.clone(),
            produced_at: self.signal.observed_at,
        }
    }
}

/// Short headline for an insight row: its first sentence, capped. The full
/// content stays in `summary`.
pub fn insight_title(content: &str) -> (r: String)
    ensures
        r@ == title_of(content@),
{
    let chars = text::chars_of(content);
    let ghost test = |c: char| ends_sentence(c);
    let mut i: usize = 0;
    assert(content@.skip(0) =~= content@);
    while i < chars.len() && chars[i] != '.' && chars[i] != '!' && chars[i] != '?'
        invariant
            i <= chars.len(),
            chars@ == content@,
            test == (|c: char| ends_sentence(c)),
            text::first_at(content@, test) == i + text::first_at(content@.skip(i as int), test),
        decreases chars.len() - i,
    {
        assert(content@.skip(i as int).drop_first() =~= content@.skip(i + 1));
        i = i + 1;
    }
    let sentence = content.substring_char(0, i);
    assert(sentence@ =~= content@.take(i as int));
    compact_summary(sentence, 64)
}

/// What one run of the memory curator did.
#[derive(Clone, Copy, Debug, PartialEq, Eq, Structural)]
pub struct CuratorRunStats {
    pub examined: u64,
    pub updated: u64,
}

/// What one background pass brought.
#[derive(Debug, PartialEq)]
pub struct BackgroundResult {
    pub dmn_actor_id: Option<String>,
    pub curator: Option<CuratorRunStats>,
    pub notifications: Vec<BackgroundNotification>,
}

/// What a [`BackgroundResult`] holds.
pub struct BackgroundResultView {
    pub dmn_actor_id: Option<Seq<char>>,
    pub curator: Option<CuratorRunStats>,
    pub notifications: Seq<BackgroundNotificationView>,
}

impl View for BackgroundResult {
    type V = BackgroundResultView;

    open spec fn view(&self) -> BackgroundResultView {
        BackgroundResultView {
            dmn_actor_id: text::opt_view(self.dmn_actor_id),
            curator: self.curator,
            notifications: text::views(self.notifications@),
        }
    }
}

impl Clone for BackgroundResult {
    fn clone(&self) -> (r: BackgroundResult)
        ensures
            r@ == self@,
    {
        let notifications = self.notifications.clone();
        assert(text::views(notifications@) =~= text::views(self.notifications@));
        BackgroundResult {
            dmn_actor_id: self.dmn_actor_id.clone(),
            curator: self.curator,
            notifications,
        }
    }
}

impl Default for BackgroundResult {
    /// A pass that brought nothing.
    fn default() -> (r: BackgroundResult)
        ensures
            r@ == (BackgroundResultView {
                dmn_actor_id: None,
                curator: None,
                notifications: Seq::empty(),
            }),
    {
        let notifications: Vec<BackgroundNotification> = Vec::new();
        assert(text::views(notifications@) =~= Seq::empty());
        BackgroundResult { dmn_actor_id: None, curator: None, notifications }
    }
}

/// The texts for the user: those of the notifications, in order, without the
/// blank ones.
pub open spec fn user_texts(notifications: Seq<BackgroundNotificationView>) -> Seq<Seq<char>> {
    text::filled(
        Seq::new(
            notifications.len(),
            |i: int| text::trimmed(notifications[i].signal.content),
        ),
    )
}

impl BackgroundResult {
    /// The texts for the user, in order, without the blank ones.
    pub fn user_messages(&self) -> (r: Vec<String>)
        ensures
            text::views(r@) == user_texts(text::views(self.notifications@)),
    {
        let ghost all = Seq::new(
            self.notifications@.len(),
            |i: int| text::trimmed(text::views(self.notifications@)[i].signal.content),
        );
        let mut out: Vec<String> = Vec::new();
        let mut i: usize = 0;
        assert(all.take(0) =~= Seq::empty());
        assert(text::views(out@) =~= Seq::empty());
        while i < self.notifications.len()
            invariant
                i <= self.notifications.len(),
                all == Seq::new(
                    self.notifications@.len(),
                    |i: int| text::trimmed(text::views(self.notifications@)[i].signal.content),
                ),
                text::views(out@) == text::filled(all.take(i as int)),
            decreases self.notifications.len() - i,
        {
            let message = self.notifications[i].user_message();
            proof {
                assert(all.take(i + 1).drop_last() =~= all.take(i as int));
                assert(all.take(i + 1).last() == message@);
                text::lemma_trimmed_twice(self.notifications@[i as int]@.signal.content);
                text::lemma_trimmed_empty(message@);
                text::lemma_views_push(out@, message);
            }
            if !is_blank(message.as_str()) {
                out.push(message);
            }
            i = i + 1;
        }
        assert(all.take(all.len() as int) =~= all);
        out
    }
}

/// The tools of the background actor.
pub open spec fn dmn_tools() -> Seq<Seq<char>> {
    seq![
        "memory_read"@,
        "memory_update"@,
        "archival_search"@,
        "conversation_search"@,
        "note_search"@,
        "todo_list"@,
        "send_message"@,
        "terminate"@,
    ]
}

/// The goals of the background actor.
pub const DMN_GOALS: &'static str = "Run quiet background reflection. Review memory, active tasks, and reminders. Notify the cortex only for user-relevant reminders, warnings, or concise insights.";

/// The turns of the background actor.
pub const DMN_MAX_TURNS: u32 = 10_000;

/// The setup of the background actor in a group.
pub open spec fn dmn_config(group: Seq<char>) -> ActorConfigView {
    ActorConfigView {
        name: DMN_ACTOR_NAME@,
        goals: DMN_GOALS@,
        group,
        model: Some(ModelTier::Aux),
        max_turns: DMN_MAX_TURNS,
        persistent: true,
        tools: dmn_tools(),
    }
}

/// The position of the background actor that serves a principal; the number
/// of actors when there is none yet.
pub open spec fn dmn_position(registry: ActorRegistryView, principal_id: Seq<char>) -> nat {
    let principal = registry.actors[registry::position_of(registry.actors, principal_id) as int];
    registry::position_named(registry.actors, DMN_ACTOR_NAME@, principal.config.group)
}

/// The id of the background actor that serves a principal, once it exists.
pub open spec fn dmn_id(registry: ActorRegistryView, principal_id: Seq<char>) -> Seq<char> {
    if dmn_position(registry, principal_id) < registry.actors.len() {
        registry.actors[dmn_position(registry, principal_id) as int].id
    } else {
        registry::id_text("actor-"@, registry.issued)
    }
}

/// The registry once the background actor of a principal exists.
pub open spec fn with_dmn(
    registry: ActorRegistryView,
    principal_id: Seq<char>,
) -> ActorRegistryView {
    let principal = registry.actors[registry::position_of(registry.actors, principal_id) as int];
    if dmn_position(registry, principal_id) < registry.actors.len() {
        registry
    } else {
        registry::spawned(registry, dmn_config(principal.config.group), principal_id, false)
    }
}

/// Finds the background actor of a principal's group, or spawns it.
pub fn ensure_dmn_actor(registry: &mut ActorRegistry, principal_id: &str) -> (r: ActorResult<
    String,
>)
    requires
        old(registry)@.issued < u64::MAX,
    ensures
        match r {
            Ok(id) => {
                &&& registry::known(old(registry)@.actors, principal_id@)
                &&& id@ == dmn_id(old(registry)@, principal_id@)
                &&& final(registry)@ == with_dmn(old(registry)@, principal_id@)
            },
            Err(ActorError::NotFound(id)) => {
                &&& !registry::known(old(registry)@.actors, principal_id@)
                &&& id@ == principal_id@
                &&& final(registry)@ == old(registry)@
            },
            Err(ActorError::Runtime(_)) => false,
        },
{
    let group = match registry.get(principal_id) {
        Some(principal) => principal.config.group.clone(),
        None => return Err(ActorError::NotFound(principal_id.to_owned())),
    };
    if let Some(existing) = registry.find_by_name(DMN_ACTOR_NAME, group.as_str()) {
        return Ok(existing.id.clone());
    }
    let mut tools: Vec<String> = Vec::new();
    tools.push("memory_read".to_owned());
    tools.push("memory_update".to_owned());
    tools.push("archival_search".to_owned());
    tools.push("conversation_search".to_owned());
    tools.push("note_search".to_owned());
    tools.push("todo_list".to_owned());
    tools.push("send_message".to_owned());
    tools.push("terminate".to_owned());
    let mut config = ActorConfig::new(DMN_ACTOR_NAME, DMN_GOALS).in_group(group.as_str());
    config.model = Some(ModelTier::Aux);
    config.max_turns = DMN_MAX_TURNS;
    config.persistent = true;
    config.tools = tools;
    assert(config@.tools =~= dmn_tools());
    Ok(registry.spawn(config, Some(principal_id), false))
}

/// At most `max_chars` characters of a text, with a note where something was
/// cut.
pub open spec fn truncated(value: Seq<char>, max_chars: nat) -> Seq<char> {
    text::capped(value, max_chars, "\n...[truncated]"@)
}

/// Caps a text and notes when something was cut.
pub fn truncate(value: &str, max_chars: usize) -> (r: String)
    ensures
        r@ == truncated(value@, max_chars as nat),
{
    cap_text(value, max_chars, "\n...[truncated]")
}

/// One labelled section of the heartbeat message; none for a blank text.
pub open spec fn section(label: Seq<char>, body: Seq<char>, max_chars: nat) -> Seq<Seq<char>> {
    if text::blank(body) {
        Seq::empty()
    } else {
        seq![label + truncated(text::trimmed(body), max_chars)]
    }
}

/// The message that a heartbeat sends to the background actor.
pub open spec fn heartbeat_text(heartbeat: Seq<char>, reminders: Seq<char>) -> Seq<char> {
    text::join(
        seq![
            "[Background heartbeat]"@,
            "Reflect quietly. Use user_notify only for items that deserve user attention."@,
        ] + section("Heartbeat context:\n"@, heartbeat, 1200) + section(
            "Active reminders:\n"@,
            reminders,
            800,
        ),
        "\n\n"@,
    )
}

/// The message that a heartbeat sends to the background actor.
pub fn format_dmn_heartbeat_message(heartbeat_message: &str, reminders: &str) -> (r: String)
    ensures
        r@ == heartbeat_text(heartbeat_message@, reminders@),
{
    let mut parts: Vec<String> = Vec::new();
    parts.push("[Background heartbeat]".to_owned());
    parts.push(
        "Reflect quietly. Use user_notify only for items that deserve user attention.".to_owned(),
    );
    let ghost head = text::views(parts@);
    if !is_blank(heartbeat_message) {
        let mut part = "Heartbeat context:\n".to_owned();
        part.append(truncate(trim(heartbeat_message), 1200).as_str());
        parts.push(part);
    }
    let ghost middle = text::views(parts@);
    assert(middle =~= head + section("Heartbeat context:\n"@, heartbeat_message@, 1200));
    if !is_blank(reminders) {
        let mut part = "Active reminders:\n".to_owned();
        part.append(truncate(trim(reminders), 800).as_str());
        parts.push(part);
    }
    assert(text::views(parts@) =~= middle + section("Active reminders:\n"@, reminders@, 800));
    assert(head =~= seq![
        "[Background heartbeat]"@,
        "Reflect quietly. Use user_notify only for items that deserve user attention."@,
    ]);
    join_texts(&parts, "\n\n")
}

/// The metadata of a heartbeat message.
pub open spec fn heartbeat_metadata() -> MembersView {
    seq![
        ("source"@, JsonMemberView::Text("background_heartbeat"@)),
        ("kind"@, JsonMemberView::Text("heartbeat"@)),
    ]
}

/// The registry after a heartbeat message reached the background actor.
pub open spec fn heartbeat_queued(
    registry: ActorRegistryView,
    principal_id: Seq<char>,
    dmn_actor_id: Seq<char>,
    heartbeat: Seq<char>,
    reminders: Seq<char>,
) -> ActorRegistryView {
    registry::delivered(
        registry,
        registry::position_of(registry.actors, dmn_actor_id) as int,
        registry::sent_message(
            registry,
            principal_id,
            heartbeat_text(heartbeat, reminders),
            heartbeat_metadata(),
            MessageIntent::Message,
        ),
    )
}

/// Puts a heartbeat into the inbox of the background actor. Returns the id of
/// the message.
pub fn queue_dmn_heartbeat_message(
    registry: &mut ActorRegistry,
    principal_id: &str,
    dmn_actor_id: &str,
    heartbeat_message: &str,
    reminders: &str,
) -> (r: ActorResult<String>)
    requires
        old(registry)@.issued < u64::MAX - 1,
    ensures
        match r {
            Ok(id) => {
                &&& registry::known(old(registry)@.actors, principal_id@)
                &&& registry::known(old(registry)@.actors, dmn_actor_id@)
                &&& id@ == registry::id_text("message-"@, old(registry)@.issued)
                &&& final(registry)@ == heartbeat_queued(
                    old(registry)@,
                    principal_id@,
                    dmn_actor_id@,
                    heartbeat_message@,
                    reminders@,
                )
            },
            Err(ActorError::NotFound(id)) => {
                &&& final(registry)@ == old(registry)@
                &&& id@ == if registry::known(old(registry)@.actors, principal_id@) {
                    dmn_actor_id@
                } else {
                    principal_id@
                }
                &&& !registry::known(old(registry)@.actors, id@)
            },
            Err(ActorError::Runtime(_)) => false,
        },
{
    let mut metadata: Members = Vec::new();
    metadata.push(("source".to_owned(), JsonMember::Text("background_heartbeat".to_owned())));
    metadata.push(("kind".to_owned(), JsonMember::Text("heartbeat".to_owned())));
    assert(text::views(metadata@) =~= heartbeat_metadata());
    let content = format_dmn_heartbeat_message(heartbeat_message, reminders);
    registry.send_to(
        principal_id,
        dmn_actor_id,
        content.as_str(),
        metadata,
        MessageIntent::Message,
    )
}

/// A request to run background reflection.
#[derive(Debug)]
pub struct QueueDmnHeartbeat {
    pub principal_id: String,
    pub heartbeat_message: String,
    pub reminders: String,
}

proof fn lemma_known_at(actors: Seq<registry::ActorView>, i: int)
    requires
        0 <= i < actors.len(),
    ensures
        registry::position_of(actors, actors[i].id) <= i,
    decreases i,
{
    if i > 0 && actors[0].id != actors[i].id {
        assert(actors.drop_first()[i - 1] == actors[i]);
        lemma_known_at(actors.drop_first(), i - 1);
    }
}

proof fn lemma_known_after_push(
    actors: Seq<registry::ActorView>,
    added: registry::ActorView,
    id: Seq<char>,
)
    requires
        registry::known(actors, id),
    ensures
        registry::position_of(actors.push(added), id) == registry::position_of(actors, id),
    decreases actors.len(),
{
    if actors[0].id != id {
        assert(actors.push(added).drop_first() =~= actors.drop_first().push(added));
        lemma_known_after_push(actors.drop_first(), added, id);
    }
}

/// Handles a request to run background reflection: makes sure the background
/// actor exists and puts the heartbeat into its inbox. Returns the actor's id,
/// for the caller to wake it. Fails only when the principal is not known.
pub fn handle_dmn_heartbeat(registry: &mut ActorRegistry, message: &QueueDmnHeartbeat) -> (r:
    ActorResult<String>)
    requires
        old(registry)@.issued < u64::MAX - 2,
    ensures
        match r {
            Ok(id) => {
                &&& registry::known(old(registry)@.actors, message.principal_id@)
                &&& id@ == dmn_id(old(registry)@, message.principal_id@)
                &&& final(registry)@ == heartbeat_queued(
                    with_dmn(old(registry)@, message.principal_id@),
                    message.principal_id@,
                    dmn_id(old(registry)@, message.principal_id@),
                    message.heartbeat_message@,
                    message.reminders@,
                )
            },
            Err(ActorError::NotFound(id)) => {
                &&& !registry::known(old(registry)@.actors, message.principal_id@)
                &&& id@ == message.principal_id@
                &&& final(registry)@ == old(registry)@
            },
            Err(ActorError::Runtime(_)) => false,
        },
{
    let ghost before = registry@;
    let dmn_actor_id = ensure_dmn_actor(registry, message.principal_id.as_str())?;
    proof {
        let after = registry@;
        let at = dmn_position(before, message.principal_id@);
        if at < before.actors.len() {
            lemma_known_at(before.actors, at as int);
        } else {
            lemma_known_at(after.actors, before.actors.len() as int);
            lemma_known_after_push(
                before.actors,
                after.actors.last(),
                message.principal_id@,
            );
        }
    }
    queue_dmn_heartbeat_message(
        registry,
        message.principal_id.as_str(),
        dmn_actor_id.as_str(),
        message.heartbeat_message.as_str(),
        message.reminders.as_str(),
    )?;
    Ok(dmn_actor_id)
}

proof fn lemma_named_after_push(
    actors: Seq<registry::ActorView>,
    added: registry::ActorView,
    name: Seq<char>,
    group: Seq<char>,
)
    requires
        registry::position_named(actors, name, group) == actors.len(),
        added.config.name == name,
        added.config.group == group,
    ensures
        registry::position_named(actors.push(added), name, group) == actors.len(),
    decreases actors.len(),
{
    if actors.len() > 0 {
        assert(actors.push(added).drop_first() =~= actors.drop_first().push(added));
        lemma_named_after_push(actors.drop_first(), added, name, group);
    } else {
        assert(actors.push(added)[0] == added);
    }
}

proof fn lemma_position_named_bounded(
    actors: Seq<registry::ActorView>,
    name: Seq<char>,
    group: Seq<char>,
)
    ensures
        registry::position_named(actors, name, group) <= actors.len(),
        registry::position_named(actors, name, group) < actors.len() ==> {
            let found = actors[registry::position_named(actors, name, group) as int];
            found.config.name == name && found.config.group == group
        },
    decreases actors.len(),
{
    if actors.len() > 0 {
        lemma_position_named_bounded(actors.drop_first(), name, group);
    }
}

/// Setting up the background actor is idempotent: once it exists, asking for
/// it again finds the same actor and changes nothing.
pub proof fn law_dmn_setup_is_idempotent(registry: ActorRegistryView, principal_id: Seq<char>)
    requires
        registry::known(registry.actors, principal_id),
    ensures
        ({
            let after = with_dmn(registry, principal_id);
            &&& registry::known(after.actors, principal_id)
            &&& dmn_id(after, principal_id) == dmn_id(registry, principal_id)
            &&& with_dmn(after, principal_id) == after
        }),
{
    let principal = registry.actors[registry::position_of(registry.actors, principal_id) as int];
    let group = principal.config.group;
    let after = with_dmn(registry, principal_id);
    lemma_position_named_bounded(registry.actors, DMN_ACTOR_NAME@, group);
    if dmn_position(registry, principal_id) == registry.actors.len() {
        let added = after.actors.last();
        assert(after.actors =~= registry.actors.push(added));
        lemma_known_after_push(registry.actors, added, principal_id);
        lemma_named_after_push(registry.actors, added, DMN_ACTOR_NAME@, group);
    }
}

/// A heartbeat reaches the background actor of the principal's group: it is
/// the newest message in that actor's inbox, sent by the principal, and it
/// raises no notification.
pub proof fn law_heartbeat_reaches_the_dmn(
    registry: ActorRegistryView,
    principal_id: Seq<char>,
    heartbeat: Seq<char>,
    reminders: Seq<char>,
)
    requires
        registry::well_formed(registry),
        registry::known(registry.actors, principal_id),
        dmn_position(registry, principal_id) < registry.actors.len()
            ==> !registry.actors[dmn_position(registry, principal_id) as int].is_principal,
    ensures
        ({
            let id = dmn_id(registry, principal_id);
            let after = heartbeat_queued(
                with_dmn(registry, principal_id),
                principal_id,
                id,
                heartbeat,
                reminders,
            );
            let at = registry::position_of(after.actors, id) as int;
            &&& registry::well_formed(after)
            &&& registry::known(after.actors, id)
            &&& after.actors[at].config.name == DMN_ACTOR_NAME@
            &&& after.actors[at].inbox.len() > 0
            &&& after.actors[at].inbox.last().content == heartbeat_text(heartbeat, reminders)
            &&& after.actors[at].inbox.last().sender == principal_id
            &&& after.events == registry.events
        }),
{
    let principal = registry.actors[registry::position_of(registry.actors, principal_id) as int];
    let group = principal.config.group;
    let middle = with_dmn(registry, principal_id);
    let id = dmn_id(registry, principal_id);
    lemma_position_named_bounded(registry.actors, DMN_ACTOR_NAME@, group);
    let p = dmn_position(registry, principal_id) as int;
    if p == registry.actors.len() {
        registry::law_spawn_keeps_ids_apart(registry, dmn_config(group), principal_id, false);
    }
    assert(middle.actors[p].id == id);
    registry::law_id_finds_its_actor(middle, p);
    let message = registry::sent_message(
        middle,
        principal_id,
        heartbeat_text(heartbeat, reminders),
        heartbeat_metadata(),
        MessageIntent::Message,
    );
    registry::law_delivery_keeps_ids_apart(middle, p, message);
    let after = registry::delivered(middle, p, message);
    assert(after.actors[p].id == id);
    registry::law_id_finds_its_actor(after, p);
}

/// What reaches the user has words: no message is blank.
pub proof fn law_user_messages_have_words(
    notifications: Seq<BackgroundNotificationView>,
    i: int,
)
    requires
        0 <= i < user_texts(notifications).len(),
    ensures
        user_texts(notifications)[i].len() > 0,
        !text::blank(user_texts(notifications)[i]),
        exists|k: int|
            0 <= k < notifications.len() && user_texts(notifications)[i] == text::trimmed(
                (#[trigger] notifications[k]).signal.content,
            ),
{
    let all = Seq::new(
        notifications.len(),
        |k: int| text::trimmed(notifications[k].signal.content),
    );
    text::lemma_filled(all, i);
    let k = choose|k: int| 0 <= k < all.len() && all[k] == user_texts(notifications)[i];
    let words = notifications[k].signal.content;
    text::lemma_trimmed_twice(words);
    text::lemma_trimmed_empty(text::trimmed(words));
}

/// The texts for the user are those of all the notifications with words: each
/// once, in its place among them, without the white space around it.
pub proof fn law_user_messages_in_order(notifications: Seq<BackgroundNotificationView>, i: int)
    requires
        0 <= i < notifications.len(),
    ensures
        ({
            let worded = |n: BackgroundNotificationView| !text::blank(n.signal.content);
            let texts = user_texts(notifications);
            let at = notifications.take(i).filter(worded).len() as int;
            &&& texts.len() == notifications.filter(worded).len()
            &&& worded(notifications[i]) ==> at < texts.len() && texts[at] == text::trimmed(
                notifications[i].signal.content,
            )
        }),
    decreases notifications.len(),
{
    let worded = |n: BackgroundNotificationView| !text::blank(n.signal.content);
    lemma_user_texts_of_a_start(notifications, notifications.len() as int);
    lemma_user_texts_of_a_start(notifications, i);
    lemma_user_texts_of_a_start(notifications, i + 1);
    assert(notifications.take(notifications.len() as int) =~= notifications);
    text::lemma_trimmed_empty(notifications[i].signal.content);
    let start = user_texts(notifications.take(i));
    let more = user_texts(notifications.take(i + 1));
    if worded(notifications[i]) {
        lemma_user_texts_step(notifications.take(i + 1));
        assert(notifications.take(i + 1).drop_last() =~= notifications.take(i));
        assert(more[start.len() as int] == text::trimmed(notifications[i].signal.content));
    }
}

proof fn lemma_user_texts_step(notifications: Seq<BackgroundNotificationView>)
    requires
        notifications.len() > 0,
    ensures
        ({
            let before = user_texts(notifications.drop_last());
            let words = notifications.last().signal.content;
            user_texts(notifications) == if text::blank(words) {
                before
            } else {
                before.push(text::trimmed(words))
            }
        }),
{
    let all = |ns: Seq<BackgroundNotificationView>|
        Seq::new(ns.len(), |k: int| text::trimmed(ns[k].signal.content));
    assert(all(notifications).drop_last() =~= all(notifications.drop_last()));
    text::lemma_trimmed_empty(notifications.last().signal.content);
}

proof fn lemma_user_texts_of_a_start(notifications: Seq<BackgroundNotificationView>, i: int)
    requires
        0 <= i <= notifications.len(),
    ensures
        ({
            let start = user_texts(notifications.take(i));
            &&& start.len() == notifications.take(i).filter(
                |n: BackgroundNotificationView| !text::blank(n.signal.content),
            ).len()
            &&& start.is_prefix_of(user_texts(notifications))
        }),
    decreases notifications.len(),
{
    reveal(Seq::filter);
    let whole = user_texts(notifications);
    if i < notifications.len() {
        let rest = notifications.drop_last();
        lemma_user_texts_step(notifications);
        lemma_user_texts_of_a_start(rest, i);
        assert(rest.take(i) =~= notifications.take(i));
        let start = user_texts(notifications.take(i));
        assert(start =~= whole.subrange(0, start.len() as int));
    } else {
        assert(notifications.take(i) =~= notifications);
        assert(whole =~= whole.subrange(0, whole.len() as int));
        if i > 0 {
            let rest = notifications.drop_last();
            lemma_user_texts_step(notifications);
            lemma_user_texts_of_a_start(rest, rest.len() as int);
            assert(rest.take(rest.len() as int) =~= rest);
        }
    }
}

} // verus!
