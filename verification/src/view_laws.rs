//! What is said of a value is said of all that it holds.
use vstd::prelude::*;

use crate::actor::activity_log::ActivityRow;
use crate::actor::activity_log::LedgerRow;
use crate::actor::activity_log::NewActivity;
use crate::actor::background::BackgroundNotification;
use crate::actor::background::BackgroundResult;
use crate::actor::notification::GateDecision;
use crate::actor::notification::UserNotificationSignal;
use crate::actor::registry::Actor;
use crate::actor::registry::ActorConfig;
use crate::actor::registry::ActorEvent;
use crate::actor::registry::ActorMessage;
use crate::actor::registry::ActorNamedEvent;
use crate::actor::registry::PayloadValue;
use crate::actor::registry::PayloadValueView;
use crate::actor::review::ReviewOutcome;
use crate::actor::review::ReviewOutcomeView;
use crate::interfaces::browser_stream;
use crate::interfaces::browser_stream::RelayStep;
use crate::interfaces::browser_stream::RelayStepView;
use crate::interfaces::browser_stream::SessionFile;
use crate::interfaces::browser_stream::Source;
use crate::json;
use crate::json::JsonDocument;
use crate::json::JsonDocumentView;
use crate::json::JsonMember;
use crate::json::JsonMemberView;
use crate::scheduler::brainstem;
use crate::scheduler::brainstem::BeatOutcome;
use crate::scheduler::brainstem::BeatState;
use crate::scheduler::brainstem::BrainstemEmission;
use crate::scheduler::brainstem::Todo;
use crate::scheduler::proactive::ActiveReminder;
use crate::scheduler::proactive::ProactiveOutbox;
use crate::scheduler::proactive::ProactiveRateLimiter;
use crate::text;
use crate::tools::hosted_plugins::HostedPluginClient;
use crate::tools::hosted_plugins::RemoteTool;
use crate::tools::registry::ActorToolContext;
use crate::tools::registry::ToolRuntime;
use crate::tools::registry::ToolSummary;
use crate::tools::registry::dispatch::ToolCall;
use crate::tools::registry::dispatch::ToolCallView;
use crate::tools::spec::Catalog;
use crate::tools::spec::ToolDef;
use crate::tui::state::ActivityUiRow;
use crate::tui::state::ActorRow;
use crate::tui::state::AppState;
use crate::tui::state::TodoRow;
use crate::tui::view::FramePlan;
use crate::tui::view::Popup;
use crate::tui::view::sidebar::Panel;
use crate::tui::view::sidebar::Sidebar;
use crate::tui::view::style::Line;
use crate::tui::view::style::Span;

verus! {

/// The view of a [`NewActivity`] shows all that it holds.
pub proof fn law_view_of_new_activity(value: NewActivity)
    ensures
        value@.kind == value.kind,
        value@.actor_id == text::opt_view(value.actor_id),
        value@.event_id == text::opt_view(value.event_id),
        value@.title == value.title@,
        value@.summary == value.summary@,
        value@.detail == text::opt_view(value.detail),
        value@.category == text::opt_view(value.category),
        value@.urgency == text::opt_view(value.urgency),
        value@.source_name == value.source_name@,
        value@.produced_at == value.produced_at@,
{
}

/// The view of an [`ActivityRow`] shows all that it holds.
pub proof fn law_view_of_activity_row(value: ActivityRow)
    ensures
        value@.id == value.id,
        value@.kind == value.kind@,
        value@.actor_id == text::opt_view(value.actor_id),
        value@.title == value.title@,
        value@.summary == value.summary@,
        value@.detail == text::opt_view(value.detail),
        value@.category == text::opt_view(value.category),
        value@.urgency == text::opt_view(value.urgency),
        value@.source_name == value.source_name@,
        value@.produced_at == value.produced_at@,
        value@.seen_at == text::opt_view(value.seen_at),
{
}

/// The view of a [`LedgerRow`] shows all that it holds.
pub proof fn law_view_of_ledger_row(value: LedgerRow)
    ensures
        value@.row == value.row@,
        value@.event_id == text::opt_view(value.event_id),
{
}

/// The view of a [`BackgroundNotification`] shows all that it holds.
pub proof fn law_view_of_background_notification(value: BackgroundNotification)
    ensures
        value@.signal == value.signal@,
        value@.assessment == value.assessment,
        value@.decision == value.decision@,
{
}

/// The view of a [`BackgroundResult`] shows all that it holds.
pub proof fn law_view_of_background_result(value: BackgroundResult)
    ensures
        value@.dmn_actor_id == text::opt_view(value.dmn_actor_id),
        value@.curator == value.curator,
        value@.notifications == text::views(value.notifications@),
{
}

/// The view of an [`UserNotificationSignal`] shows all that it holds.
pub proof fn law_view_of_user_notification_signal(value: UserNotificationSignal)
    ensures
        value@.event_id == value.event_id@,
        value@.source == value.source,
        value@.source_name == value.source_name@,
        value@.source_actor_id == value.source_actor_id@,
        value@.category == value.category,
        value@.urgency == value.urgency,
        value@.content == value.content@,
        value@.metadata == text::views(value.metadata@),
        value@.observed_at == value.observed_at@,
{
}

/// The view of a [`GateDecision`] shows all that it holds.
pub proof fn law_view_of_gate_decision(value: GateDecision)
    ensures
        value@.action == value.action,
        value@.reason == value.reason@,
{
}

/// The view of an [`ActorConfig`] shows all that it holds.
pub proof fn law_view_of_actor_config(value: ActorConfig)
    ensures
        value@.name == value.name@,
        value@.goals == value.goals@,
        value@.group == value.group@,
        value@.model == value.model,
        value@.max_turns == value.max_turns,
        value@.persistent == value.persistent,
        value@.tools == text::views(value.tools@),
{
}

/// The view of an [`ActorMessage`] shows all that it holds.
pub proof fn law_view_of_actor_message(value: ActorMessage)
    ensures
        value@.id == value.id@,
        value@.sender == value.sender@,
        value@.content == value.content@,
        value@.metadata == text::views(value.metadata@),
        value@.intent == value.intent,
{
}

/// The view of an [`ActorEvent`] shows all that it holds.
pub proof fn law_view_of_actor_event(value: ActorEvent)
    ensures
        value@.id == value.id@,
        value@.actor_id == value.actor_id@,
        value@.name == value.name@,
        value@.payload == text::views(value.payload@),
{
}

/// The view of an [`ActorNamedEvent`] shows all that it holds.
pub proof fn law_view_of_actor_named_event(value: ActorNamedEvent)
    ensures
        value@.event == value.event@,
        value@.actor_name == value.actor_name@,
{
}

/// The view of an [`Actor`] shows all that it holds.
pub proof fn law_view_of_actor(value: Actor)
    ensures
        value@.id == value.id@,
        value@.config == value.config@,
        value@.spawned_by == value.spawned_by@,
        value@.is_principal == value.is_principal,
        value@.inbox == text::views(value.inbox@),
{
}

/// The view of a [`Source`] shows all that it holds.
pub proof fn law_view_of_source(value: Source)
    ensures
        value@.name == value.name@,
        value@.url == value.url@,
{
}

/// The view of a [`SessionFile`] shows all that it holds.
pub proof fn law_view_of_session_file(value: SessionFile)
    ensures
        value@.stream_port == value.stream_port,
        value@.stream_token == text::opt_view(value.stream_token),
        value@.started_at == value.started_at,
{
}

/// The view of a [`BrainstemEmission`] shows all that it holds.
pub proof fn law_view_of_brainstem_emission(value: BrainstemEmission)
    ensures
        value@.kind == value.kind,
        value@.message == value.message@,
{
}

/// The view of a [`BeatState`] shows all that it holds.
pub proof fn law_view_of_beat_state(value: BeatState)
    ensures
        value@.heartbeat == value.heartbeat,
        value@.limiter == value.limiter@,
        value@.outbox == value.outbox@,
{
}

/// The view of a [`BeatOutcome`] shows all that it holds.
pub proof fn law_view_of_beat_outcome(value: BeatOutcome)
    ensures
        value@.messages == text::views(value.messages@),
        value@.idle == value.idle,
        value@.open_work == value.open_work,
{
}

/// The view of a [`Todo`] shows all that it holds.
pub proof fn law_view_of_todo(value: Todo)
    ensures
        value@.title == value.title@,
        value@.priority == brainstem::priority_text(value.priority),
        value@.due == text::opt_view(value.due_date),
{
}

/// The view of a [`ProactiveRateLimiter`] shows all that it holds.
pub proof fn law_view_of_proactive_rate_limiter(value: ProactiveRateLimiter)
    ensures
        value@.max_per_day == value.max_per_day,
        value@.cooldown_seconds == value.cooldown_seconds,
        value@.sends == value.sends@,
{
}

/// The view of a [`ProactiveOutbox`] shows all that it holds.
pub proof fn law_view_of_proactive_outbox(value: ProactiveOutbox)
    ensures
        value@ == text::opt_view(value.held),
{
}

/// The view of an [`ActiveReminder`] shows all that it holds.
pub proof fn law_view_of_active_reminder(value: ActiveReminder)
    ensures
        value@.title == value.title@,
        value@.priority == value.priority@,
        value@.due == text::opt_view(value.due),
{
}

/// The view of a [`RemoteTool`] shows all that it holds.
pub proof fn law_view_of_remote_tool(value: RemoteTool)
    ensures
        value@.name == value.name@,
        value@.description == value.description@,
        value@.exposure == value.exposure,
        value@.siblings == text::views(value.siblings@),
{
}

/// The view of a [`HostedPluginClient`] shows all that it holds.
pub proof fn law_view_of_hosted_plugin_client(value: HostedPluginClient)
    ensures
        value@.tools == text::views(value.tools@),
        value@.replaced == text::views(value.replaced@),
        value@.directory == value.directory@,
{
}

/// The view of an [`ActorToolContext`] shows all that it holds.
pub proof fn law_view_of_actor_tool_context(value: ActorToolContext)
    ensures
        value@.runtime == value.runtime,
        value@.actor_id == value.actor_id@,
        value@.is_subagent == value.is_subagent,
{
}

/// The view of a [`ToolRuntime`] shows all that it holds.
pub proof fn law_view_of_tool_runtime(value: ToolRuntime)
    ensures
        value@.telegram == value.telegram,
        value@.client == value.client,
        value@.actor == text::opt_view(value.actor),
        value@.observer == value.observer,
        value@.secure_prompt == value.secure_prompt,
        value@.agent_id_state_dir == text::opt_view(value.agent_id_state_dir),
        value@.hosted_plugins == text::opt_view(value.hosted_plugins),
        value@.policy == value.policy,
        value@.requested_tools == text::views(value.requested_tools@),
{
}

/// The view of a [`ToolSummary`] shows all that it holds.
pub proof fn law_view_of_tool_summary(value: ToolSummary)
    ensures
        value@.name == value.name@,
        value@.description == value.description@,
{
}

/// The view of a [`ToolDef`] shows all that it holds.
pub proof fn law_view_of_tool_def(value: ToolDef)
    ensures
        value@.name == value.name@,
        value@.description == value.description@,
        value@.category == value.category,
        value@.execution == value.execution,
{
}

/// The view of a [`Catalog`] shows all that it holds.
pub proof fn law_view_of_catalog(value: Catalog)
    ensures
        value@.defs == text::views(value.defs@),
        value@.host == value.host,
{
}

/// The view of an [`ActorRow`] shows all that it holds.
pub proof fn law_view_of_actor_row(value: ActorRow)
    ensures
        value@.id == value.id@,
        value@.name == value.name@,
        value@.state == value.state@,
        value@.outcome == text::opt_view(value.outcome),
        value@.spawned_by == value.spawned_by@,
{
}

/// The view of an [`ActivityUiRow`] shows all that it holds.
pub proof fn law_view_of_activity_ui_row(value: ActivityUiRow)
    ensures
        value@.kind == value.kind@,
        value@.title == value.title@,
        value@.summary == value.summary@,
        value@.detail == text::opt_view(value.detail),
        value@.source_name == value.source_name@,
        value@.produced_at == value.produced_at@,
        value@.seen == value.seen,
{
}

/// The view of a [`TodoRow`] shows all that it holds.
pub proof fn law_view_of_todo_row(value: TodoRow)
    ensures
        value@.title == value.title@,
        value@.status == value.status@,
        value@.priority == value.priority@,
        value@.due_date == text::opt_view(value.due_date),
{
}

/// The view of an [`AppState`] shows all that it holds.
pub proof fn law_view_of_app_state(value: AppState)
    ensures
        value@.sidebar_visible == value.sidebar_visible,
        value@.focused_pane == value.focused_pane,
        value@.actors == text::views(value.actors@),
        value@.activity == text::views(value.activity@),
        value@.activity_selected == value.activity_selected,
        value@.activity_detail is Some <==> value.activity_detail is Some,
        value.activity_detail matches Some(index) ==> value@.activity_detail == Some(index as nat),
        value@.unseen_insights == value.unseen_insights,
        value@.todos == text::views(value.todos@),
{
}

/// The view of a [`Popup`] shows all that it holds.
pub proof fn law_view_of_popup(value: Popup)
    ensures
        value@.area == value.area,
        value@.border == value.border,
        value@.title == value.title@,
        value@.lines == text::views(value.lines@),
{
}

/// The view of a [`FramePlan`] shows all that it holds.
pub proof fn law_view_of_frame_plan(value: FramePlan)
    ensures
        value@.transcript == value.transcript,
        value@.sidebar == text::opt_view(value.sidebar),
        value@.editor == value.editor,
        value@.footer == value.footer,
        value@.popup == text::opt_view(value.popup),
{
}

/// The view of a [`Panel`] shows all that it holds.
pub proof fn law_view_of_panel(value: Panel)
    ensures
        value@.area == value.area,
        value@.border == value.border,
        value@.title == value.title@,
        value@.inner == value.inner,
        value@.lines == text::views(value.lines@),
{
}

/// The view of a [`Sidebar`] shows all that it holds.
pub proof fn law_view_of_sidebar(value: Sidebar)
    ensures
        value@.actors == value.actors@,
        value@.activity == value.activity@,
        value@.todos == value.todos@,
{
}

/// The view of a [`Span`] shows all that it holds.
pub proof fn law_view_of_span(value: Span)
    ensures
        value@.text == value.text@,
        value@.style == value.style,
{
}

/// The view of a [`Line`] shows all that it holds.
pub proof fn law_view_of_line(value: Line)
    ensures
        value@ == text::views(value.spans@),
{
}

/// The view of a [`ReviewOutcome`] shows whether it sends, and the words.
pub proof fn law_view_of_review_outcome(value: ReviewOutcome)
    ensures
        value matches ReviewOutcome::Send(words) ==> value@ == ReviewOutcomeView::Send(words@),
        value matches ReviewOutcome::Drop(words) ==> value@ == ReviewOutcomeView::Drop(words@),
{
}

/// The view of a [`JsonMember`] shows its kind and what it holds.
pub proof fn law_view_of_json_member(value: JsonMember)
    ensures
        value is Null <==> value@ is Null,
        value matches JsonMember::Bool(b) ==> value@ == JsonMemberView::Bool(b),
        value matches JsonMember::Number(t) ==> value@ == JsonMemberView::Number(t@),
        value matches JsonMember::Text(t) ==> value@ == JsonMemberView::Text(t@),
        value matches JsonMember::Nested(t) ==> value@ == JsonMemberView::Nested(t@),
{
}

/// The view of a [`JsonDocument`] shows its members, or its text; that of an
/// attempt to read one shows the document, or the words of the failure.
pub proof fn law_view_of_json_document(value: JsonDocument, error: String)
    ensures
        value matches JsonDocument::Object(m) ==> value@ == JsonDocumentView::Object(
            text::views(m@),
        ),
        value matches JsonDocument::Other(t) ==> value@ == JsonDocumentView::Other(t@),
        json::outcome_view(Ok(value)) == Ok::<JsonDocumentView, Seq<char>>(value@),
        json::outcome_view(Err(error)) == Err::<JsonDocumentView, Seq<char>>(error@),
{
}

/// The view of a [`PayloadValue`] shows what it holds.
pub proof fn law_view_of_payload_value(value: PayloadValue)
    ensures
        value matches PayloadValue::Plain(m) ==> value@ == PayloadValueView::Plain(m@),
        value matches PayloadValue::Members(m) ==> value@ == PayloadValueView::Members(
            text::views(m@),
        ),
{
}

/// The view of a [`RelayStep`] shows the step, and what goes with it.
pub proof fn law_view_of_relay_step(value: RelayStep, words: Option<&str>)
    ensures
        value matches RelayStep::Dial(i) ==> value@ == RelayStepView::Dial(i as int),
        value matches RelayStep::NoBrowser(t) ==> value@ == RelayStepView::NoBrowser(t@),
        value matches RelayStep::Relay(t) ==> value@ == RelayStepView::Relay(t@),
        browser_stream::opt_text(words) is Some <==> words is Some,
        words matches Some(t) ==> browser_stream::opt_text(words) == Some(t@),
{
}

/// The view of a [`ToolCall`] shows what is to be done, and under which name.
pub proof fn law_view_of_tool_call(value: ToolCall)
    ensures
        value matches ToolCall::Reply(t) ==> value@ == ToolCallView::Reply(t@),
        value matches ToolCall::Invoke { name, call_id } ==> value@ == (ToolCallView::Invoke {
            name: name@,
            call_id: text::opt_view(call_id),
        }),
        value matches ToolCall::Run { name, execution } ==> value@ == (ToolCallView::Run {
            name: name@,
            execution,
        }),
{
}

} // verus!
