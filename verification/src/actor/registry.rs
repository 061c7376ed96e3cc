//! The actors of one process: who they are, their inboxes, and the events
//! that their messages raise.
use vstd::prelude::*;
use vstd::string::*;

use crate::actor::ActorError;
use crate::actor::ActorResult;
use crate::json::JsonMember;
use crate::json::JsonMemberView;
use crate::json::Members;
use crate::json::MembersView;
use crate::json::copy_members;
use crate::text;
use crate::text::decimal_text;
use crate::text::same_text;

verus! {

/// Which model an actor runs on.
#[derive(Clone, Copy, Debug, PartialEq, Eq, Structural)]
pub enum ModelTier {
    Main,
    Aux,
}

/// What a message is for.
#[derive(Clone, Copy, Debug, PartialEq, Eq, Structural)]
pub enum MessageIntent {
    Message,
    Reminder,
    Info,
}

/// The name of an intent.
pub open spec fn intent_text(intent: MessageIntent) -> Seq<char> {
    match intent {
        MessageIntent::Message => "message"@,
        MessageIntent::Reminder => "reminder"@,
        MessageIntent::Info => "info"@,
    }
}

impl MessageIntent {
    /// The name of the intent.
    pub fn as_str(self) -> (r: &'static str)
        ensures
            r@ == intent_text(self),
    {
        match self {
            MessageIntent::Message => "message",
            MessageIntent::Reminder => "reminder",
            MessageIntent::Info => "info",
        }
    }
}

/// How an actor is set up.
#[derive(Debug)]
pub struct ActorConfig {
    pub name: String,
    pub goals: String,
    pub group: String,
    pub model: Option<ModelTier>,
    pub max_turns: u32,
    pub persistent: bool,
    pub tools: Vec<String>,
}

/// What an [`ActorConfig`] holds.
pub struct ActorConfigView {
    pub name: Seq<char>,
    pub goals: Seq<char>,
    pub group: Seq<char>,
    pub model: Option<ModelTier>,
    pub max_turns: u32,
    pub persistent: bool,
    pub tools: Seq<Seq<char>>,
}

impl View for ActorConfig {
    type V = ActorConfigView;

    open spec fn view(&self) -> ActorConfigView {
        ActorConfigView {
            name: self.name@,
            goals: self.goals@,
            group: self.group@,
            model: self.model,
            max_turns: self.max_turns,
            persistent: self.persistent,
            tools: text::views(self.tools@),
        }
    }
}

/// The turns an actor has unless its setup says otherwise.
pub const DEFAULT_MAX_TURNS: u32 = 20;

/// The setup of an actor of which only the name and the goals are known.
pub open spec fn plain_config(name: Seq<char>, goals: Seq<char>) -> ActorConfigView {
    ActorConfigView {
        name,
        goals,
        group: Seq::empty(),
        model: None,
        max_turns: DEFAULT_MAX_TURNS,
        persistent: false,
        tools: Seq::empty(),
    }
}

impl ActorConfig {
    /// The setup of an actor of which only the name and the goals are known.
    pub fn new(name: &str, goals: &str) -> (r: ActorConfig)
        ensures
            r@ == plain_config(name@, goals@),
    {
        let r = ActorConfig {
            name: name.to_owned(),
            goals: goals.to_owned(),
            group: String::new(),
            model: None,
            max_turns: DEFAULT_MAX_TURNS,
            persistent: false,
            tools: Vec::new(),
        };
        assert(text::views(r.tools@) =~= Seq::empty());
        r
    }

    /// The same setup in another group.
    pub fn in_group(self, group: &str) -> (r: ActorConfig)
        ensures
            r@ == (ActorConfigView { group: group@, ..self@ }),
    {
        ActorConfig { group: group.to_owned(), ..self }
    }
}

/// A message in an inbox.
#[derive(Debug)]
pub struct ActorMessage {
    pub id: String,
    pub sender: String,
    pub content: String,
    pub metadata: Members,
    pub intent: MessageIntent,
}

/// What an [`ActorMessage`] holds.
pub struct ActorMessageView {
    pub id: Seq<char>,
    pub sender: Seq<char>,
    pub content: Seq<char>,
    pub metadata: MembersView,
    pub intent: MessageIntent,
}

impl View for ActorMessage {
    type V = ActorMessageView;

    open spec fn view(&self) -> ActorMessageView {
        ActorMessageView {
            id: self.id@,
            sender: self.sender@,
            content: self.content@,
            metadata: text::views(self.metadata@),
            intent: self.intent,
        }
    }
}

/// One entry of an event's payload.
#[derive(Debug)]
pub enum PayloadValue {
    Plain(JsonMember),
    /// A JSON object.
    Members(Members),
}

/// What a [`PayloadValue`] holds.
pub enum PayloadValueView {
    Plain(JsonMemberView),
    Members(MembersView),
}

impl View for PayloadValue {
    type V = PayloadValueView;

    open spec fn view(&self) -> PayloadValueView {
        match self {
            PayloadValue::Plain(m) => PayloadValueView::Plain(m@),
            PayloadValue::Members(m) => PayloadValueView::Members(text::views(m@)),
        }
    }
}

/// Something that happened around an actor.
#[derive(Debug)]
pub struct ActorEvent {
    pub id: String,
    pub actor_id: String,
    pub name: String,
    pub payload: Vec<(String, PayloadValue)>,
}

/// What an [`ActorEvent`] holds.
pub struct ActorEventView {
    pub id: Seq<char>,
    pub actor_id: Seq<char>,
    pub name: Seq<char>,
    pub payload: Seq<(Seq<char>, PayloadValueView)>,
}

impl View for ActorEvent {
    type V = ActorEventView;

    open spec fn view(&self) -> ActorEventView {
        ActorEventView {
            id: self.id@,
            actor_id: self.actor_id@,
            name: self.name@,
            payload: text::views(self.payload@),
        }
    }
}

/// An event together with the name of the actor it is about.
#[derive(Debug)]
pub struct ActorNamedEvent {
    pub event: ActorEvent,
    pub actor_name: String,
}

/// What an [`ActorNamedEvent`] holds.
pub struct ActorNamedEventView {
    pub event: ActorEventView,
    pub actor_name: Seq<char>,
}

impl View for ActorNamedEvent {
    type V = ActorNamedEventView;

    open spec fn view(&self) -> ActorNamedEventView {
        ActorNamedEventView { event: self.event@, actor_name: self.actor_name@ }
    }
}

/// An actor.
#[derive(Debug)]
pub struct Actor {
    pub id: String,
    pub config: ActorConfig,
    /// The id of the actor that spawned it; empty for a root.
    pub spawned_by: String,
    /// Whether messages to it are for the user.
    pub is_principal: bool,
    pub inbox: Vec<ActorMessage>,
}

/// What an [`Actor`] holds.
pub struct ActorView {
    pub id: Seq<char>,
    pub config: ActorConfigView,
    pub spawned_by: Seq<char>,
    pub is_principal: bool,
    pub inbox: Seq<ActorMessageView>,
}

impl View for Actor {
    type V = ActorView;

    open spec fn view(&self) -> ActorView {
        ActorView {
            id: self.id@,
            config: self.config@,
            spawned_by: self.spawned_by@,
            is_principal: self.is_principal,
            inbox: text::views(self.inbox@),
        }
    }
}

/// The actors of one process.
#[derive(Debug)]
pub struct ActorRegistry {
    actors: Vec<Actor>,
    events: Vec<ActorEvent>,
    issued: u64,
}

/// What an [`ActorRegistry`] holds: the actors in the order of their spawning,
/// the events in the order of their happening, and how many ids were issued.
pub struct ActorRegistryView {
    pub actors: Seq<ActorView>,
    pub events: Seq<ActorEventView>,
    pub issued: nat,
}

impl View for ActorRegistry {
    type V = ActorRegistryView;

    closed spec fn view(&self) -> ActorRegistryView {
        ActorRegistryView {
            actors: text::views(self.actors@),
            events: text::views(self.events@),
            issued: self.issued as nat,
        }
    }
}

/// The id with this number.
pub open spec fn id_text(prefix: Seq<char>, number: nat) -> Seq<char> {
    prefix + text::decimal(number)
}

fn issue_id(prefix: &str, number: u64) -> (r: String)
    ensures
        r@ == id_text(prefix@, number as nat),
{
    let mut id = prefix.to_owned();
    id.append(decimal_text(number).as_str());
    id
}

/// The position of the first actor with this id; the number of actors when
/// there is none.
pub open spec fn position_of(actors: Seq<ActorView>, id: Seq<char>) -> nat
    decreases actors.len(),
{
    if actors.len() == 0 || actors[0].id == id {
        0
    } else {
        1 + position_of(actors.drop_first(), id)
    }
}

/// Whether an actor has this id.
pub open spec fn known(actors: Seq<ActorView>, id: Seq<char>) -> bool {
    position_of(actors, id) < actors.len()
}

/// The position of the first actor with this name in this group; the number
/// of actors when there is none.
pub open spec fn position_named(
    actors: Seq<ActorView>,
    name: Seq<char>,
    group: Seq<char>,
) -> nat
    decreases actors.len(),
{
    if actors.len() == 0 || (actors[0].config.name == name && actors[0].config.group == group) {
        0
    } else {
        1 + position_named(actors.drop_first(), name, group)
    }
}

/// The registry after an actor was spawned.
pub open spec fn spawned(
    registry: ActorRegistryView,
    config: ActorConfigView,
    spawned_by: Seq<char>,
    is_principal: bool,
) -> ActorRegistryView {
    ActorRegistryView {
        actors: registry.actors.push(
            ActorView {
                id: id_text("actor-"@, registry.issued),
                config,
                spawned_by,
                is_principal,
                inbox: Seq::empty(),
            },
        ),
        issued: registry.issued + 1,
        ..registry
    }
}

/// The message that is delivered when `sender` sends `content`.
pub open spec fn sent_message(
    registry: ActorRegistryView,
    sender: Seq<char>,
    content: Seq<char>,
    metadata: MembersView,
    intent: MessageIntent,
) -> ActorMessageView {
    ActorMessageView {
        id: id_text("message-"@, registry.issued),
        sender,
        content,
        metadata,
        intent,
    }
}

/// The event that a message to a principal raises.
pub open spec fn notify_event(
    registry: ActorRegistryView,
    message: ActorMessageView,
) -> ActorEventView {
    ActorEventView {
        id: id_text("event-"@, registry.issued + 1),
        actor_id: message.sender,
        name: "user_notify"@,
        payload: seq![
            (
                "message"@,
                PayloadValueView::Plain(JsonMemberView::Text(message.content)),
            ),
            (
                "kind"@,
                PayloadValueView::Plain(JsonMemberView::Text(intent_text(message.intent))),
            ),
            ("metadata"@, PayloadValueView::Members(message.metadata)),
        ],
    }
}

/// The registry after `message` reached the actor at position `to`.
pub open spec fn delivered(
    registry: ActorRegistryView,
    to: int,
    message: ActorMessageView,
) -> ActorRegistryView {
    let actor = registry.actors[to];
    ActorRegistryView {
        actors: registry.actors.update(
            to,
            ActorView { inbox: actor.inbox.push(message), ..actor },
        ),
        events: if actor.is_principal {
            registry.events.push(notify_event(registry, message))
        } else {
            registry.events
        },
        issued: registry.issued + 2,
    }
}

/// Whether ids tell actors apart: no two actors share one, and each was
/// issued by this registry.
pub open spec fn well_formed(registry: ActorRegistryView) -> bool {
    &&& forall|i: int, j: int|
        0 <= i < j < registry.actors.len() ==> (#[trigger] registry.actors[i]).id != (
        #[trigger] registry.actors[j]).id
    &&& forall|i: int|
        0 <= i < registry.actors.len() ==> exists|n: nat|
            n < registry.issued && (#[trigger] registry.actors[i]).id == #[trigger] id_text(
                "actor-"@,
                n,
            )
}

proof fn lemma_id_text_injective(prefix: Seq<char>, a: nat, b: nat)
    requires
        id_text(prefix, a) == id_text(prefix, b),
    ensures
        a == b,
{
    let n = prefix.len() as int;
    assert(id_text(prefix, a).skip(n) =~= text::decimal(a));
    assert(id_text(prefix, b).skip(n) =~= text::decimal(b));
    text::lemma_decimal_injective(a, b);
}

/// Spawning keeps ids apart.
pub proof fn law_spawn_keeps_ids_apart(
    registry: ActorRegistryView,
    config: ActorConfigView,
    spawned_by: Seq<char>,
    is_principal: bool,
)
    requires
        well_formed(registry),
    ensures
        well_formed(spawned(registry, config, spawned_by, is_principal)),
{
    let after = spawned(registry, config, spawned_by, is_principal);
    let last = registry.actors.len() as int;
    let fresh = id_text("actor-"@, registry.issued);
    assert forall|i: int| 0 <= i < after.actors.len() implies exists|n: nat|
        n < after.issued && (#[trigger] after.actors[i]).id == #[trigger] id_text("actor-"@, n) by {
        if i == last {
            assert(after.actors[i].id == fresh);
        } else {
            let n = choose|n: nat|
                n < registry.issued && registry.actors[i].id == #[trigger] id_text("actor-"@, n);
            assert(after.actors[i].id == id_text("actor-"@, n));
        }
    }
    assert forall|i: int, j: int| 0 <= i < j < after.actors.len() implies (#[trigger]
    after.actors[i]).id != (#[trigger] after.actors[j]).id by {
        assert(after.actors[i] == registry.actors[i]);
        if j == last {
            let n = choose|n: nat|
                n < registry.issued && registry.actors[i].id == #[trigger] id_text("actor-"@, n);
            if after.actors[i].id == after.actors[j].id {
                lemma_id_text_injective("actor-"@, n, registry.issued);
            }
        } else {
            assert(after.actors[j] == registry.actors[j]);
        }
    }
}

/// Delivering a message keeps ids apart.
pub proof fn law_delivery_keeps_ids_apart(
    registry: ActorRegistryView,
    to: int,
    message: ActorMessageView,
)
    requires
        well_formed(registry),
        0 <= to < registry.actors.len(),
    ensures
        well_formed(delivered(registry, to, message)),
{
    let after = delivered(registry, to, message);
    assert forall|i: int| 0 <= i < after.actors.len() implies (#[trigger] after.actors[i]).id
        == registry.actors[i].id by {}
    assert forall|i: int| 0 <= i < after.actors.len() implies exists|n: nat|
        n < after.issued && (#[trigger] after.actors[i]).id == #[trigger] id_text("actor-"@, n) by {
        let n = choose|n: nat|
            n < registry.issued && registry.actors[i].id == #[trigger] id_text("actor-"@, n);
        assert(after.actors[i].id == id_text("actor-"@, n));
    }
    assert forall|i: int, j: int| 0 <= i < j < after.actors.len() implies (#[trigger]
    after.actors[i]).id != (#[trigger] after.actors[j]).id by {
        assert(registry.actors[i].id != registry.actors[j].id);
    }
}

/// An id finds the actor that carries it.
pub proof fn law_id_finds_its_actor(registry: ActorRegistryView, i: int)
    requires
        well_formed(registry),
        0 <= i < registry.actors.len(),
    ensures
        position_of(registry.actors, registry.actors[i].id) == i,
{
    lemma_position(registry.actors, i);
}

proof fn lemma_position(actors: Seq<ActorView>, i: int)
    requires
        0 <= i < actors.len(),
        forall|a: int, b: int|
            0 <= a < b < actors.len() ==> (#[trigger] actors[a]).id != (#[trigger] actors[b]).id,
    ensures
        position_of(actors, actors[i].id) == i,
    decreases i,
{
    if i > 0 {
        let rest = actors.drop_first();
        assert(actors[0].id != actors[i].id);
        assert forall|a: int, b: int| 0 <= a < b < rest.len() implies (#[trigger] rest[a]).id != (
        #[trigger] rest[b]).id by {
            assert(rest[a] == actors[a + 1] && rest[b] == actors[b + 1]);
        }
        lemma_position(rest, i - 1);
    }
}

impl ActorRegistry {
    /// A registry without actors.
    pub fn new() -> (r: ActorRegistry)
        ensures
            r@ == (ActorRegistryView {
                actors: Seq::empty(),
                events: Seq::empty(),
                issued: 0,
            }),
    {
        let r = ActorRegistry { actors: Vec::new(), events: Vec::new(), issued: 0 };
        assert(r@.actors =~= Seq::empty());
        assert(r@.events =~= Seq::empty());
        r
    }

    /// How many ids were given out.
    pub fn issued(&self) -> (r: u64)
        ensures
            r == self@.issued,
    {
        self.issued
    }

    /// The events, in the order of their happening.
    pub fn events(&self) -> (r: &Vec<ActorEvent>)
        ensures
            text::views(r@) == self@.events,
    {
        &self.events
    }

    fn find(&self, id: &str) -> (r: usize)
        ensures
            r == position_of(self@.actors, id@),
            r <= self.actors.len(),
    {
        let ghost all = self@.actors;
        let mut i: usize = 0;
        assert(all.skip(0) =~= all);
        while i < self.actors.len() && !same_text(self.actors[i].id.as_str(), id)
            invariant
                i <= self.actors.len(),
                all == self@.actors,
                position_of(all, id@) == i + position_of(all.skip(i as int), id@),
            decreases self.actors.len() - i,
        {
            assert(all.skip(i as int)[0] == self.actors@[i as int]@);
            assert(all.skip(i as int).drop_first() =~= all.skip(i + 1));
            i = i + 1;
        }
        if i < self.actors.len() {
            assert(all.skip(i as int)[0] == self.actors@[i as int]@);
        }
        i
    }

    /// The actor with this id, if there is one.
    pub fn get(&self, id: &str) -> (r: Option<&Actor>)
        ensures
            match r {
                Some(actor) => known(self@.actors, id@) && actor@
                    == self@.actors[position_of(self@.actors, id@) as int],
                None => !known(self@.actors, id@),
            },
    {
        let at: usize = self.find(id);
        if at < self.actors.len() {
            assert(self@.actors[at as int] == self.actors@[at as int]@);
            Some(&self.actors[at])
        } else {
            None
        }
    }

    /// The first actor with this name in this group, if there is one.
    pub fn find_by_name(&self, name: &str, group: &str) -> (r: Option<&Actor>)
        ensures
            match r {
                Some(actor) => position_named(self@.actors, name@, group@) < self@.actors.len()
                    && actor@ == self@.actors[position_named(self@.actors, name@, group@) as int],
                None => position_named(self@.actors, name@, group@) == self@.actors.len(),
            },
    {
        let ghost all = self@.actors;
        let mut i: usize = 0;
        assert(all.skip(0) =~= all);
        while i < self.actors.len()
            invariant
                i <= self.actors.len(),
                all == self@.actors,
                position_named(all, name@, group@) == i + position_named(
                    all.skip(i as int),
                    name@,
                    group@,
                ),
            decreases self.actors.len() - i,
        {
            assert(all.skip(i as int)[0] == self.actors@[i as int]@);
            if same_text(self.actors[i].config.name.as_str(), name) && same_text(
                self.actors[i].config.group.as_str(),
                group,
            ) {
                assert(all[i as int] == self.actors@[i as int]@);
                return Some(&self.actors[i]);
            }
            assert(all.skip(i as int).drop_first() =~= all.skip(i + 1));
            i = i + 1;
        }
        None
    }

    /// Adds an actor and returns its id.
    pub fn spawn(
        &mut self,
        config: ActorConfig,
        spawned_by: Option<&str>,
        is_principal: bool,
    ) -> (r: String)
        requires
            old(self)@.issued < u64::MAX,
        ensures
            r@ == id_text("actor-"@, old(self)@.issued),
            final(self)@ == spawned(
                old(self)@,
                config@,
                match spawned_by {
                    Some(id) => id@,
                    None => Seq::empty(),
                },
                is_principal,
            ),
    {
        let id = issue_id("actor-", self.issued);
        let parent = match spawned_by {
            Some(parent) => parent.to_owned(),
            None => String::new(),
        };
        let actor = Actor {
            id: id.clone(),
            config,
            spawned_by: parent,
            is_principal,
            inbox: Vec::new(),
        };
        assert(text::views(actor.inbox@) =~= Seq::empty());
        proof {
            text::lemma_views_push(self.actors@, actor);
        }
        self.actors.push(actor);
        self.issued = self.issued + 1;
        id
    }

    /// Puts a message into an inbox and returns its id. A message to a
    /// principal also raises a `user_notify` event. Fails when sender or
    /// recipient are not known.
    pub fn send_to(
        &mut self,
        sender: &str,
        recipient: &str,
        content: &str,
        metadata: Members,
        intent: MessageIntent,
    ) -> (r: ActorResult<String>)
        requires
            old(self)@.issued < u64::MAX - 1,
        ensures
            match r {
                Ok(id) => {
                    &&& known(old(self)@.actors, sender@)
                    &&& known(old(self)@.actors, recipient@)
                    &&& id@ == id_text("message-"@, old(self)@.issued)
                    &&& final(self)@ == delivered(
                        old(self)@,
                        position_of(old(self)@.actors, recipient@) as int,
                        sent_message(
                            old(self)@,
                            sender@,
                            content@,
                            text::views(metadata@),
                            intent,
                        ),
                    )
                },
                Err(ActorError::NotFound(id)) => {
                    &&& final(self)@ == old(self)@
                    &&& id@ == if known(old(self)@.actors, sender@) {
                        recipient@
                    } else {
                        sender@
                    }
                    &&& !known(old(self)@.actors, id@)
                },
                Err(ActorError::Runtime(_)) => false,
            },
    {
        let from: usize = self.find(sender);
        if from >= self.actors.len() {
            return Err(ActorError::NotFound(sender.to_owned()));
        }
        let to: usize = self.find(recipient);
        if to >= self.actors.len() {
            return Err(ActorError::NotFound(recipient.to_owned()));
        }
        let ghost before = self@;
        let id = issue_id("message-", self.issued);
        let event_id = issue_id("event-", self.issued + 1);
        assert(before.actors[to as int] == self.actors@[to as int]@);
        if self.actors[to].is_principal {
            let mut payload: Vec<(String, PayloadValue)> = Vec::new();
            payload.push(
                (
                    "message".to_owned(),
                    PayloadValue::Plain(JsonMember::Text(content.to_owned())),
                ),
            );
            payload.push(
                (
                    "kind".to_owned(),
                    PayloadValue::Plain(JsonMember::Text(intent.as_str().to_owned())),
                ),
            );
            payload.push(
                ("metadata".to_owned(), PayloadValue::Members(copy_members(&metadata))),
            );
            let event = ActorEvent {
                id: event_id,
                actor_id: sender.to_owned(),
                name: "user_notify".to_owned(),
                payload,
            };
            proof {
                let message = sent_message(
                    before,
                    sender@,
                    content@,
                    text::views(metadata@),
                    intent,
                );
                assert(text::views(event.payload@) =~= notify_event(before, message).payload);
                text::lemma_views_push(self.events@, event);
            }
            self.events.push(event);
        }
        let message = ActorMessage {
            id: id.clone(),
            sender: sender.to_owned(),
            content: content.to_owned(),
            metadata,
            intent,
        };
        proof {
            text::lemma_views_push(self.actors@[to as int].inbox@, message);
        }
        self.actors[to].inbox.push(message);
        self.issued = self.issued + 2;
        proof {
            let m = sent_message(before, sender@, content@, text::views(metadata@), intent);
            assert(self@.actors =~= delivered(before, to as int, m).actors);
        }
        Ok(id)
    }

    /// Takes the oldest message out of an inbox.
    pub fn pop_inbox(&mut self, id: &str) -> (r: Option<ActorMessage>)
        ensures
            ({
                let actors = old(self)@.actors;
                let at = position_of(actors, id@) as int;
                match r {
                    Some(message) => {
                        &&& known(actors, id@)
                        &&& actors[at].inbox.len() > 0
                        &&& message@ == actors[at].inbox[0]
                        &&& final(self)@ == (ActorRegistryView {
                            actors: actors.update(
                                at,
                                ActorView { inbox: actors[at].inbox.skip(1), ..actors[at] },
                            ),
                            ..old(self)@
                        })
                    },
                    None => {
                        &&& !known(actors, id@) || actors[at].inbox.len() == 0
                        &&& final(self)@ == old(self)@
                    },
                }
            }),
    {
        let at: usize = self.find(id);
        if at >= self.actors.len() {
            return None;
        }
        let ghost before = self@;
        assert(before.actors[at as int] == self.actors@[at as int]@);
        if self.actors[at].inbox.len() == 0 {
            return None;
        }
        let ghost inbox = self.actors@[at as int].inbox@;
        let message = self.actors[at].inbox.remove(0);
        proof {
            assert(text::views(self.actors@[at as int].inbox@) =~= text::views(inbox).skip(1));
            assert(self@.actors =~= before.actors.update(
                at as int,
                ActorView { inbox: before.actors[at as int].inbox.skip(1), ..before.actors[at as int] },
            ));
        }
        Some(message)
    }
}

/// An id finds the first actor that carries it, and the end where none does: it
/// is known exactly where an actor carries it.
pub proof fn law_first_actor_is_found(actors: Seq<ActorView>, id: Seq<char>)
    ensures
        ({
            let at = position_of(actors, id) as int;
            &&& at <= actors.len()
            &&& at < actors.len() ==> actors[at].id == id
            &&& forall|i: int| 0 <= i < at ==> (#[trigger] actors[i]).id != id
            &&& known(actors, id) <==> exists|i: int|
                0 <= i < actors.len() && (#[trigger] actors[i]).id == id
        }),
    decreases actors.len(),
{
    let at = position_of(actors, id) as int;
    if actors.len() > 0 && actors[0].id != id {
        let rest = actors.drop_first();
        law_first_actor_is_found(rest, id);
        assert forall|i: int| 0 <= i < at implies (#[trigger] actors[i]).id != id by {
            if i > 0 {
                assert(rest[i - 1] == actors[i]);
            }
        }
    }
    if at < actors.len() {
        if at > 0 {
            assert(actors.drop_first()[at - 1] == actors[at]);
        }
        assert(actors[at].id == id);
    }
}

/// A name finds the first actor of the group that bears it, and the end where
/// none does.
pub proof fn law_first_of_the_group_is_found(
    actors: Seq<ActorView>,
    name: Seq<char>,
    group: Seq<char>,
)
    ensures
        ({
            let at = position_named(actors, name, group) as int;
            &&& at <= actors.len()
            &&& at < actors.len() ==> actors[at].config.name == name && actors[at].config.group
                == group
            &&& forall|i: int|
                0 <= i < at ==> (#[trigger] actors[i]).config.name != name || actors[i].config.group
                    != group
        }),
    decreases actors.len(),
{
    let at = position_named(actors, name, group) as int;
    if actors.len() > 0 && !(actors[0].config.name == name && actors[0].config.group == group) {
        let rest = actors.drop_first();
        law_first_of_the_group_is_found(rest, name, group);
        assert forall|i: int| 0 <= i < at implies (#[trigger] actors[i]).config.name != name
            || actors[i].config.group != group by {
            if i > 0 {
                assert(rest[i - 1] == actors[i]);
            }
        }
        if at < actors.len() {
            assert(rest[at - 1] == actors[at]);
        }
    }
}

/// Spawning adds one actor behind the others, set up as was asked, with an empty
/// inbox and an id that no actor had; nobody else notices.
pub proof fn law_spawn_adds_one_actor(
    registry: ActorRegistryView,
    config: ActorConfigView,
    spawned_by: Seq<char>,
    is_principal: bool,
)
    ensures
        ({
            let after = spawned(registry, config, spawned_by, is_principal);
            let n = registry.actors.len() as int;
            &&& after.actors.len() == n + 1
            &&& forall|i: int| 0 <= i < n ==> #[trigger] after.actors[i] == registry.actors[i]
            &&& after.actors[n].id == "actor-"@ + text::decimal(registry.issued)
            &&& after.actors[n].config == config
            &&& after.actors[n].spawned_by == spawned_by
            &&& after.actors[n].is_principal == is_principal
            &&& after.actors[n].inbox.len() == 0
            &&& after.events == registry.events
            &&& after.issued == registry.issued + 1
        }),
{
}

/// A message is delivered to one actor: it stands last in that inbox, and
/// nothing else of any actor changes.
pub proof fn law_message_reaches_one_inbox(
    registry: ActorRegistryView,
    to: int,
    message: ActorMessageView,
)
    requires
        0 <= to < registry.actors.len(),
    ensures
        ({
            let after = delivered(registry, to, message);
            let before = registry.actors[to];
            &&& after.actors.len() == registry.actors.len()
            &&& after.actors[to].inbox == before.inbox + seq![message]
            &&& after.actors[to].id == before.id
            &&& after.actors[to].config == before.config
            &&& after.actors[to].spawned_by == before.spawned_by
            &&& after.actors[to].is_principal == before.is_principal
            &&& forall|i: int|
                0 <= i < registry.actors.len() && i != to ==> #[trigger] after.actors[i]
                    == registry.actors[i]
        }),
{
    let before = registry.actors[to];
    assert(before.inbox.push(message) =~= before.inbox + seq![message]);
}

/// A message to a principal is for the user: it raises one `user_notify` event
/// of its sender, with its words, what it is for and its metadata. A message to
/// anyone else raises none. Message and event get ids that were not given out.
pub proof fn law_message_to_a_principal_notifies(
    registry: ActorRegistryView,
    to: int,
    sender: Seq<char>,
    content: Seq<char>,
    metadata: MembersView,
    intent: MessageIntent,
)
    requires
        0 <= to < registry.actors.len(),
    ensures
        ({
            let message = sent_message(registry, sender, content, metadata, intent);
            let after = delivered(registry, to, message);
            let n = registry.events.len() as int;
            &&& message.id == "message-"@ + text::decimal(registry.issued)
            &&& message.sender == sender
            &&& message.content == content
            &&& message.metadata == metadata
            &&& message.intent == intent
            &&& after.issued == registry.issued + 2
            &&& !registry.actors[to].is_principal ==> after.events == registry.events
            &&& registry.actors[to].is_principal ==> {
                let event = after.events[n];
                &&& after.events.len() == n + 1
                &&& forall|i: int| 0 <= i < n ==> #[trigger] after.events[i] == registry.events[i]
                &&& event.id == "event-"@ + text::decimal(registry.issued + 1)
                &&& event.actor_id == sender
                &&& event.name == "user_notify"@
                &&& event.payload.len() == 3
                &&& event.payload[0] == (
                    "message"@,
                    PayloadValueView::Plain(JsonMemberView::Text(content)),
                )
                &&& event.payload[1].0 == "kind"@
                &&& intent == MessageIntent::Message ==> event.payload[1].1
                    == PayloadValueView::Plain(JsonMemberView::Text("message"@))
                &&& intent == MessageIntent::Reminder ==> event.payload[1].1
                    == PayloadValueView::Plain(JsonMemberView::Text("reminder"@))
                &&& intent == MessageIntent::Info ==> event.payload[1].1
                    == PayloadValueView::Plain(JsonMemberView::Text("info"@))
                &&& event.payload[2] == ("metadata"@, PayloadValueView::Members(metadata))
            }
        }),
{
}

/// An actor of which only the name and the goals are known has no group, no
/// model of its own, no tools and 20 turns, and does not outlive its work.
pub proof fn law_plain_setup(name: Seq<char>, goals: Seq<char>)
    ensures
        ({
            let config = plain_config(name, goals);
            &&& config.name == name && config.goals == goals
            &&& config.group.len() == 0 && config.tools.len() == 0
            &&& config.model is None && config.max_turns == 20 && !config.persistent
        }),
{
}

} // verus!
