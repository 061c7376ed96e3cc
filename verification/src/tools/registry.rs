//! Which tools a turn sees, and which it can ask for.
use vstd::prelude::*;
use vstd::string::*;

use crate::order;
use crate::order::sort_unique;
use crate::text;
use crate::text::join_texts;
use crate::text::same_text;
use crate::text::split_lines;
use crate::text::starts_with;
use crate::text::text_before;
use crate::text::trim;
use crate::tools::host::BrowserTools;
use crate::tools::host::FileTools;
use crate::tools::host::HostHandle;
use crate::tools::host::ImageTools;
use crate::tools::host::WebTools;
use crate::tools::hosted_plugins;
use crate::tools::hosted_plugins::HostedPluginClient;
use crate::tools::hosted_plugins::PluginsView;
use crate::tools::hosted_plugins::RemoteToolExposure;
use crate::tools::hosted_plugins::RemoteToolView;
use crate::tools::hosted_plugins::holds_text;
use crate::tools::spec;
use crate::tools::spec::Catalog;
use crate::tools::spec::CatalogView;
use crate::tools::spec::ToolCategory;
use crate::tools::spec::ToolDef;
use crate::tools::spec::ToolDefView;

pub mod call_laws;
pub mod dispatch;
pub mod laws;
pub mod visibility_laws;

verus! {

/// Controls which built-in capabilities exist for a turn. `HostedSafe` is an
/// allowlist enforced both while schemas are assembled and again at dispatch,
/// so a model cannot invoke by name what the allowlist leaves out. It retains
/// the identity/vault families and the vault-sealed browser; callers must
/// provide tenant-private cache and agent-id state paths.
#[derive(Clone, Copy, Debug, PartialEq, Eq, Structural)]
pub enum ToolPolicy {
    Full,
    HostedSafe,
}

impl Default for ToolPolicy {
    fn default() -> (r: ToolPolicy)
        ensures
            r == ToolPolicy::Full,
    {
        ToolPolicy::Full
    }
}

/// The tool families that the hosted policy admits by the start of their
/// names. The built-in `browser_` family is not among them: it is not
/// tenant-scoped and bypasses the host's browser-concurrency gate.
pub open spec fn hosted_family(name: Seq<char>) -> bool {
    ||| "memory_"@.is_prefix_of(name)
    ||| "archival_"@.is_prefix_of(name)
    ||| "conversation_"@.is_prefix_of(name)
    ||| "note_"@.is_prefix_of(name)
    ||| "todo_"@.is_prefix_of(name)
    ||| "agent_id_"@.is_prefix_of(name)
    ||| "vault_"@.is_prefix_of(name)
    ||| "alien_browser_"@.is_prefix_of(name)
}

/// The tools of workspace file access. The hosted policy can admit them
/// because its file and image tools are sandboxed.
pub open spec fn workspace_tool(name: Seq<char>) -> bool {
    ||| name == "read_file"@
    ||| name == "write_file"@
    ||| name == "edit_file"@
    ||| name == "list_directory"@
    ||| name == "glob_search"@
    ||| name == "grep_search"@
    ||| name == "view_image"@
}

/// Whether the tool of this name manages internal workers and nothing else.
pub open spec fn orchestration_tool(name: Seq<char>, defs: Seq<ToolDefView>) -> bool {
    match spec::def_named(defs, name) {
        Some(def) => def.category == ToolCategory::Actor || def.category
            == ToolCategory::ActorSubagent,
        None => false,
    }
}

/// Whether the policy admits the built-in tool of this name.
pub open spec fn allows(policy: ToolPolicy, name: Seq<char>, defs: Seq<ToolDefView>) -> bool {
    match policy {
        ToolPolicy::Full => true,
        ToolPolicy::HostedSafe => {
            ||| name == "request_tool"@
            ||| name == "chat_send_message"@
            ||| hosted_family(name)
            ||| workspace_tool(name)
            ||| orchestration_tool(name, defs)
        },
    }
}

impl ToolPolicy {
    /// Whether the policy admits the built-in tool of this name.
    pub fn allows_builtin(self, name: &str, catalog: &Catalog) -> (r: bool)
        ensures
            r == allows(self, name@, catalog@.defs),
    {
        match self {
            ToolPolicy::Full => true,
            ToolPolicy::HostedSafe => {
                same_text(name, "request_tool") || same_text(name, "chat_send_message")
                    || starts_with(name, "memory_") || starts_with(name, "archival_")
                    || starts_with(name, "conversation_") || starts_with(name, "note_")
                    || starts_with(name, "todo_") || starts_with(name, "agent_id_")
                    || starts_with(name, "vault_") || starts_with(name, "alien_browser_")
                    || same_text(name, "read_file") || same_text(name, "write_file")
                    || same_text(name, "edit_file") || same_text(name, "list_directory")
                    || same_text(name, "glob_search") || same_text(name, "grep_search")
                    || same_text(name, "view_image") || match catalog.find_def(name) {
                    Some(def) => def.category == ToolCategory::Actor || def.category
                        == ToolCategory::ActorSubagent,
                    None => false,
                }
            },
        }
    }
}

/// The actor that a turn belongs to.
#[derive(Debug)]
pub struct ActorToolContext {
    pub runtime: HostHandle,
    pub actor_id: String,
    pub is_subagent: bool,
}

/// What an [`ActorToolContext`] holds.
pub struct ActorToolContextView {
    pub runtime: HostHandle,
    pub actor_id: Seq<char>,
    pub is_subagent: bool,
}

impl View for ActorToolContext {
    type V = ActorToolContextView;

    open spec fn view(&self) -> ActorToolContextView {
        ActorToolContextView {
            runtime: self.runtime,
            actor_id: self.actor_id@,
            is_subagent: self.is_subagent,
        }
    }
}

impl Clone for ActorToolContext {
    fn clone(&self) -> (r: ActorToolContext)
        ensures
            r@ == self@,
    {
        ActorToolContext {
            runtime: self.runtime,
            actor_id: self.actor_id.clone(),
            is_subagent: self.is_subagent,
        }
    }
}

/// What a turn has at hand.
#[derive(Debug)]
pub struct ToolRuntime {
    pub telegram: Option<HostHandle>,
    pub client: Option<HostHandle>,
    pub actor: Option<ActorToolContext>,
    pub observer: Option<HostHandle>,
    /// Present only in hosted secure-prompt mode: lets the agent-id tools raise
    /// sealed credential cards and emit identity lifecycle events.
    pub secure_prompt: Option<HostHandle>,
    /// Tenant-private agent-id identity, vault, and sealed-browser state. A
    /// multiplexed host must set this on every turn; a standalone host falls
    /// back to its process-local state directory.
    pub agent_id_state_dir: Option<String>,
    /// Trusted remote tools advertised by the hosted plugin gateway.
    pub hosted_plugins: Option<HostedPluginClient>,
    /// Capability boundary for the current turn.
    pub policy: ToolPolicy,
    pub requested_tools: Vec<String>,
}

/// What a [`ToolRuntime`] holds.
pub struct ToolRuntimeView {
    pub telegram: Option<HostHandle>,
    pub client: Option<HostHandle>,
    pub actor: Option<ActorToolContextView>,
    pub observer: Option<HostHandle>,
    pub secure_prompt: Option<HostHandle>,
    pub agent_id_state_dir: Option<Seq<char>>,
    pub hosted_plugins: Option<PluginsView>,
    pub policy: ToolPolicy,
    pub requested_tools: Seq<Seq<char>>,
}

impl View for ToolRuntime {
    type V = ToolRuntimeView;

    open spec fn view(&self) -> ToolRuntimeView {
        ToolRuntimeView {
            telegram: self.telegram,
            client: self.client,
            actor: text::opt_view(self.actor),
            observer: self.observer,
            secure_prompt: self.secure_prompt,
            agent_id_state_dir: text::opt_view(self.agent_id_state_dir),
            hosted_plugins: text::opt_view(self.hosted_plugins),
            policy: self.policy,
            requested_tools: text::views(self.requested_tools@),
        }
    }
}

impl Clone for ToolRuntime {
    fn clone(&self) -> (r: ToolRuntime)
        ensures
            r@ == self@,
    {
        let requested_tools = self.requested_tools.clone();
        assert(text::views(requested_tools@) =~= text::views(self.requested_tools@));
        ToolRuntime {
            telegram: self.telegram,
            client: self.client,
            actor: self.actor.clone(),
            observer: self.observer,
            secure_prompt: self.secure_prompt,
            agent_id_state_dir: self.agent_id_state_dir.clone(),
            hosted_plugins: self.hosted_plugins.clone(),
            policy: self.policy,
            requested_tools,
        }
    }
}

/// Nothing attached, and the full catalog.
pub open spec fn bare_runtime() -> ToolRuntimeView {
    ToolRuntimeView {
        telegram: None,
        client: None,
        actor: None,
        observer: None,
        secure_prompt: None,
        agent_id_state_dir: None,
        hosted_plugins: None,
        policy: ToolPolicy::Full,
        requested_tools: Seq::empty(),
    }
}

impl Default for ToolRuntime {
    fn default() -> (r: ToolRuntime)
        ensures
            r@ == bare_runtime(),
    {
        let r = ToolRuntime {
            telegram: None,
            client: None,
            actor: None,
            observer: None,
            secure_prompt: None,
            agent_id_state_dir: None,
            hosted_plugins: None,
            policy: ToolPolicy::Full,
            requested_tools: Vec::new(),
        };
        assert(r@.requested_tools =~= Seq::empty());
        r
    }
}

/// What decides the visibility of built-in tools. Lets callers build the
/// directory of requestable tools without a registry or a runtime at hand.
#[derive(Clone, Copy, Debug, PartialEq, Eq, Structural)]
pub struct ToolContextShape {
    pub has_actor: bool,
    pub is_subagent: bool,
    /// Telegram transport attached.
    pub has_telegram: bool,
    /// Client (web/desktop chat) transport attached.
    pub has_client: bool,
    /// A tenant-private identity/vault directory is attached. The hosted policy
    /// shows the tools that use it only then.
    pub has_agent_id_state: bool,
    pub policy: ToolPolicy,
}

impl Default for ToolContextShape {
    fn default() -> (r: ToolContextShape)
        ensures
            r == shape_of(bare_runtime()),
    {
        ToolContextShape {
            has_actor: false,
            is_subagent: false,
            has_telegram: false,
            has_client: false,
            has_agent_id_state: false,
            policy: ToolPolicy::Full,
        }
    }
}

/// The shape of what a turn has at hand.
pub open spec fn shape_of(runtime: ToolRuntimeView) -> ToolContextShape {
    ToolContextShape {
        has_actor: runtime.actor is Some,
        is_subagent: match runtime.actor {
            Some(context) => context.is_subagent,
            None => false,
        },
        has_telegram: runtime.telegram is Some,
        has_client: runtime.client is Some,
        has_agent_id_state: runtime.agent_id_state_dir is Some,
        policy: runtime.policy,
    }
}

/// Whether a turn of this shape is offered the tool, now or on request.
pub open spec fn visible(
    def: ToolDefView,
    shape: ToolContextShape,
    catalog: CatalogView,
) -> bool {
    &&& allows(shape.policy, def.name, catalog.defs)
    &&& match def.category {
        ToolCategory::Initial | ToolCategory::Requestable | ToolCategory::CortexOnly => true,
        ToolCategory::BrowserBuiltin => shape.policy != ToolPolicy::HostedSafe
            && !catalog.host.browser_tools,
        ToolCategory::Actor => shape.has_actor,
        ToolCategory::ActorSubagent => shape.is_subagent,
        ToolCategory::Transport => shape.has_telegram,
        ToolCategory::TransportClient => shape.has_client && !shape.has_telegram,
        ToolCategory::KnowledgeGraph => catalog.host.knowledge_graph,
        ToolCategory::AgentId => catalog.host.vault_tools && (shape.policy
            != ToolPolicy::HostedSafe || shape.has_agent_id_state),
        ToolCategory::AgentIdBrowser => catalog.host.browser_tools && (shape.policy
            != ToolPolicy::HostedSafe || shape.has_agent_id_state),
    }
}

/// Whether a turn of this shape starts with the tools of this category.
pub open spec fn initial(
    category: ToolCategory,
    shape: ToolContextShape,
    catalog: CatalogView,
) -> bool {
    match category {
        ToolCategory::Initial => true,
        ToolCategory::Requestable | ToolCategory::BrowserBuiltin => false,
        ToolCategory::CortexOnly => !shape.is_subagent,
        ToolCategory::Actor => shape.has_actor,
        ToolCategory::ActorSubagent => shape.is_subagent,
        ToolCategory::Transport => shape.has_telegram,
        ToolCategory::TransportClient => shape.has_client && !shape.has_telegram,
        ToolCategory::KnowledgeGraph => catalog.host.knowledge_graph,
        ToolCategory::AgentId | ToolCategory::AgentIdBrowser => false,
    }
}

/// Whether a turn of this shape can ask for the built-in tool.
pub open spec fn requestable(
    def: ToolDefView,
    shape: ToolContextShape,
    catalog: CatalogView,
) -> bool {
    &&& visible(def, shape, catalog)
    &&& !initial(def.category, shape, catalog)
    &&& def.name != "request_tool"@
}

impl ToolContextShape {
    /// Whether a turn of this shape is offered the tool, now or on request.
    pub fn sees(self, def: &ToolDef, catalog: &Catalog) -> (r: bool)
        ensures
            r == visible(def@, self, catalog@),
    {
        let in_context = match def.category {
            ToolCategory::Initial | ToolCategory::Requestable | ToolCategory::CortexOnly => true,
            ToolCategory::BrowserBuiltin => self.policy != ToolPolicy::HostedSafe
                && !catalog.host.browser_tools,
            ToolCategory::Actor => self.has_actor,
            ToolCategory::ActorSubagent => self.is_subagent,
            ToolCategory::Transport => self.has_telegram,
            ToolCategory::TransportClient => self.has_client && !self.has_telegram,
            ToolCategory::KnowledgeGraph => catalog.host.knowledge_graph,
            ToolCategory::AgentId => catalog.host.vault_tools && (self.policy
                != ToolPolicy::HostedSafe || self.has_agent_id_state),
            ToolCategory::AgentIdBrowser => catalog.host.browser_tools && (self.policy
                != ToolPolicy::HostedSafe || self.has_agent_id_state),
        };
        in_context && self.policy.allows_builtin(def.name.as_str(), catalog)
    }

    /// Whether a turn of this shape starts with the tools of this category.
    pub fn loads(self, category: ToolCategory, catalog: &Catalog) -> (r: bool)
        ensures
            r == initial(category, self, catalog@),
    {
        match category {
            ToolCategory::Initial => true,
            ToolCategory::Requestable | ToolCategory::BrowserBuiltin => false,
            ToolCategory::CortexOnly => !self.is_subagent,
            ToolCategory::Actor => self.has_actor,
            ToolCategory::ActorSubagent => self.is_subagent,
            ToolCategory::Transport => self.has_telegram,
            ToolCategory::TransportClient => self.has_client && !self.has_telegram,
            ToolCategory::KnowledgeGraph => catalog.host.knowledge_graph,
            ToolCategory::AgentId | ToolCategory::AgentIdBrowser => false,
        }
    }

    /// Whether a turn of this shape can ask for the built-in tool.
    pub fn can_request(self, def: &ToolDef, catalog: &Catalog) -> (r: bool)
        ensures
            r == requestable(def@, self, catalog@),
    {
        self.sees(def, catalog) && !self.loads(def.category, catalog) && !same_text(
            def.name.as_str(),
            "request_tool",
        )
    }
}

impl ToolRuntime {
    /// The shape of what the turn has at hand.
    pub fn shape(&self) -> (r: ToolContextShape)
        ensures
            r == shape_of(self@),
    {
        ToolContextShape {
            has_actor: self.actor.is_some(),
            is_subagent: match &self.actor {
                Some(context) => context.is_subagent,
                None => false,
            },
            has_telegram: self.telegram.is_some(),
            has_client: self.client.is_some(),
            has_agent_id_state: self.agent_id_state_dir.is_some(),
            policy: self.policy,
        }
    }
}

/// The directory line of a tool.
pub open spec fn directory_line(def: ToolDefView) -> Seq<char> {
    "- "@ + def.name + " — "@ + def.description
}

/// The directory lines of the tools that a turn can ask for, in catalog order.
pub open spec fn requestable_lines(
    defs: Seq<ToolDefView>,
    shape: ToolContextShape,
    catalog: CatalogView,
) -> Seq<Seq<char>>
    decreases defs.len(),
{
    if defs.len() == 0 {
        Seq::empty()
    } else {
        let before = requestable_lines(defs.drop_last(), shape, catalog);
        if requestable(defs.last(), shape, catalog) {
            before.push(directory_line(defs.last()))
        } else {
            before
        }
    }
}

/// The directory of the built-in tools that a turn of this shape can ask for.
pub open spec fn shape_directory(shape: ToolContextShape, catalog: CatalogView) -> Seq<char> {
    text::join(order::ordered_set(requestable_lines(catalog.defs, shape, catalog)), "\n"@)
}

/// One line for each built-in tool that a turn of this shape can ask for,
/// in order and without repeats.
pub fn requestable_tools_directory_for_shape(
    shape: ToolContextShape,
    catalog: &Catalog,
) -> (r: String)
    ensures
        r@ == shape_directory(shape, catalog@),
{
    broadcast use text::lemma_views_push;

    let ghost all = catalog@.defs;
    let mut lines: Vec<String> = Vec::new();
    let mut i: usize = 0;
    assert(text::views(lines@) =~= Seq::empty());
    while i < catalog.defs.len()
        invariant
            i <= catalog.defs.len(),
            all == catalog@.defs,
            text::views(lines@) == requestable_lines(all.take(i as int), shape, catalog@),
        decreases catalog.defs.len() - i,
    {
        let def = &catalog.defs[i];
        assert(all.take(i + 1).drop_last() =~= all.take(i as int));
        assert(all.take(i + 1).last() == def@);
        if shape.can_request(def, catalog) {
            let mut line = "- ".to_owned();
            line.append(def.name.as_str());
            line.append(" — ");
            line.append(def.description.as_str());
            assert(line@ == directory_line(def@));
            lines.push(line);
        }
        i = i + 1;
    }
    assert(all.take(all.len() as int) =~= all);
    let ordered = sort_unique(&lines);
    join_texts(&ordered, "\n")
}

/// The tool name in a directory line; empty in a line of another form.
pub open spec fn name_in_line(line: Seq<char>) -> Seq<char> {
    if "- "@.is_prefix_of(line) {
        match text::before_first(line.skip(2), " — "@) {
            Some(name) => name,
            None => Seq::empty(),
        }
    } else {
        Seq::empty()
    }
}

/// The tool name in a directory line; empty in a line of another form.
fn line_name(line: &str) -> (r: String)
    ensures
        r@ == name_in_line(line@),
{
    proof {
        reveal_strlit("- ");
        reveal_strlit("");
    }
    if starts_with(line, "- ") {
        let rest = line.substring_char(2, line.unicode_len());
        assert(rest@ =~= line@.skip(2));
        match text_before(rest, " — ") {
            Some(name) => name,
            None => "".to_owned(),
        }
    } else {
        "".to_owned()
    }
}

/// The lines whose tool the gateway does not replace.
pub open spec fn unreplaced_lines(lines: Seq<Seq<char>>, replaced: Seq<Seq<char>>) -> Seq<Seq<char>>
    decreases lines.len(),
{
    if lines.len() == 0 {
        Seq::empty()
    } else {
        let before = unreplaced_lines(lines.drop_last(), replaced);
        if replaced.contains(name_in_line(lines.last())) {
            before
        } else {
            before.push(lines.last())
        }
    }
}

/// The directory of what a turn with this at hand can ask for: the built-in
/// tools that the gateway does not replace, and the gateway's own.
pub open spec fn runtime_directory(runtime: ToolRuntimeView, catalog: CatalogView) -> Seq<char> {
    let builtin = shape_directory(shape_of(runtime), catalog);
    match runtime.hosted_plugins {
        None => builtin,
        Some(client) => text::join(
            order::ordered_set(
                unreplaced_lines(text::lines(builtin), client.replaced) + text::lines(
                    client.directory,
                ),
            ),
            "\n"@,
        ),
    }
}

/// One line for each tool that a turn with this at hand can ask for.
pub fn requestable_tools_directory_for(runtime: &ToolRuntime, catalog: &Catalog) -> (r: String)
    ensures
        r@ == runtime_directory(runtime@, catalog@),
{
    broadcast use text::lemma_views_push;

    let builtin = requestable_tools_directory_for_shape(runtime.shape(), catalog);
    match &runtime.hosted_plugins {
        None => builtin,
        Some(client) => {
            let offered = split_lines(builtin.as_str());
            let ghost all = text::lines(builtin@);
            let ghost replaced = client@.replaced;
            let mut lines: Vec<String> = Vec::new();
            assert(text::views(lines@) =~= unreplaced_lines(all.take(0), replaced));
            let mut i: usize = 0;
            while i < offered.len()
                invariant
                    i <= offered.len(),
                    all == text::views(offered@),
                    replaced == client@.replaced,
                    text::views(lines@) == unreplaced_lines(all.take(i as int), replaced),
                decreases offered.len() - i,
            {
                assert(all.take(i + 1).drop_last() =~= all.take(i as int));
                assert(all.take(i + 1).last() == offered@[i as int]@);
                let name = line_name(offered[i].as_str());
                if !client.replaces_builtin(name.as_str()) {
                    lines.push(offered[i].as_str().to_owned());
                }
                i = i + 1;
            }
            assert(all.take(all.len() as int) =~= all);
            let mut remote = split_lines(client.directory.as_str());
            let ghost kept = lines@;
            let ghost more = remote@;
            lines.append(&mut remote);
            assert(text::views(lines@) =~= text::views(kept) + text::views(more));
            let ordered = sort_unique(&lines);
            join_texts(&ordered, "\n")
        },
    }
}

/// The remote tool of this name, where a gateway advertises one.
pub open spec fn remote_tool(runtime: ToolRuntimeView, name: Seq<char>) -> Option<RemoteToolView> {
    match runtime.hosted_plugins {
        Some(client) => hosted_plugins::remote_named(client.tools, name),
        None => None,
    }
}

/// Whether the gateway replaces the built-in tool of this name.
pub open spec fn is_replaced(runtime: ToolRuntimeView, name: Seq<char>) -> bool {
    match runtime.hosted_plugins {
        Some(client) => client.replaced.contains(name),
        None => false,
    }
}

/// Whether a turn starts with the tool of this name.
pub open spec fn starts_loaded(
    runtime: ToolRuntimeView,
    catalog: CatalogView,
    name: Seq<char>,
) -> bool {
    if remote_tool(runtime, name) matches Some(tool) && tool.exposure
        == RemoteToolExposure::Initial {
        true
    } else if is_replaced(runtime, name) {
        false
    } else {
        match spec::def_named(catalog.defs, name) {
            Some(def) => initial(def.category, shape_of(runtime), catalog),
            None => false,
        }
    }
}

/// Whether a turn can have the tool of this name, now or on request. White
/// space around the name does not count.
pub open spec fn is_available(
    runtime: ToolRuntimeView,
    catalog: CatalogView,
    name: Seq<char>,
) -> bool {
    let name = text::trimmed(name);
    if remote_tool(runtime, name) is Some {
        true
    } else if is_replaced(runtime, name) {
        false
    } else {
        match spec::def_named(catalog.defs, name) {
            Some(def) => visible(def, shape_of(runtime), catalog),
            None => false,
        }
    }
}

/// A tool as it is offered to the model.
#[derive(Debug)]
pub struct ToolSummary {
    pub name: String,
    pub description: String,
}

/// What a [`ToolSummary`] holds.
pub struct ToolSummaryView {
    pub name: Seq<char>,
    pub description: Seq<char>,
}

impl View for ToolSummary {
    type V = ToolSummaryView;

    open spec fn view(&self) -> ToolSummaryView {
        ToolSummaryView { name: self.name@, description: self.description@ }
    }
}

/// The built-in tools that are visible and that no gateway replaces.
pub open spec fn local_tools(
    defs: Seq<ToolDefView>,
    runtime: ToolRuntimeView,
    catalog: CatalogView,
) -> Seq<ToolSummaryView>
    decreases defs.len(),
{
    if defs.len() == 0 {
        Seq::empty()
    } else {
        let before = local_tools(defs.drop_last(), runtime, catalog);
        let def = defs.last();
        if visible(def, shape_of(runtime), catalog) && !is_replaced(runtime, def.name) {
            before.push(ToolSummaryView { name: def.name, description: def.description })
        } else {
            before
        }
    }
}

/// The remote tools.
pub open spec fn remote_tools(runtime: ToolRuntimeView) -> Seq<ToolSummaryView> {
    match runtime.hosted_plugins {
        Some(client) => Seq::new(
            client.tools.len(),
            |i: int|
                ToolSummaryView {
                    name: client.tools[i].name,
                    description: client.tools[i].description,
                },
        ),
        None => Seq::empty(),
    }
}

/// Every tool that a turn can have: the built-in ones, then the remote ones.
pub open spec fn all_tools(
    runtime: ToolRuntimeView,
    catalog: CatalogView,
) -> Seq<ToolSummaryView> {
    local_tools(catalog.defs, runtime, catalog) + remote_tools(runtime)
}

/// Whether the tool of this name is loaded: from the start or since.
pub open spec fn is_active(
    runtime: ToolRuntimeView,
    catalog: CatalogView,
    active: Seq<Seq<char>>,
    name: Seq<char>,
) -> bool {
    starts_loaded(runtime, catalog, name) || active.contains(name)
}

/// The tools that are loaded, in their order.
pub open spec fn active_tools_of(
    tools: Seq<ToolSummaryView>,
    runtime: ToolRuntimeView,
    catalog: CatalogView,
    active: Seq<Seq<char>>,
) -> Seq<ToolSummaryView>
    decreases tools.len(),
{
    if tools.len() == 0 {
        Seq::empty()
    } else {
        let before = active_tools_of(tools.drop_last(), runtime, catalog, active);
        if is_active(runtime, catalog, active, tools.last().name) {
            before.push(tools.last())
        } else {
            before
        }
    }
}

/// The names of the built-in tools that a turn can ask for and that no
/// gateway replaces, in catalog order.
pub open spec fn local_requestable(
    defs: Seq<ToolDefView>,
    runtime: ToolRuntimeView,
    catalog: CatalogView,
) -> Seq<Seq<char>>
    decreases defs.len(),
{
    if defs.len() == 0 {
        Seq::empty()
    } else {
        let before = local_requestable(defs.drop_last(), runtime, catalog);
        let def = defs.last();
        if requestable(def, shape_of(runtime), catalog) && !is_replaced(runtime, def.name) {
            before.push(def.name)
        } else {
            before
        }
    }
}

/// The names of the remote tools that are offered on request.
pub open spec fn remote_requestable(tools: Seq<RemoteToolView>) -> Seq<Seq<char>>
    decreases tools.len(),
{
    if tools.len() == 0 {
        Seq::empty()
    } else {
        let before = remote_requestable(tools.drop_last());
        if tools.last().exposure == RemoteToolExposure::Requestable {
            before.push(tools.last().name)
        } else {
            before
        }
    }
}

/// The names that a turn can ask for, with repeats.
pub open spec fn requestable_names(
    runtime: ToolRuntimeView,
    catalog: CatalogView,
) -> Seq<Seq<char>> {
    local_requestable(catalog.defs, runtime, catalog) + match runtime.hosted_plugins {
        Some(client) => remote_requestable(client.tools),
        None => Seq::empty(),
    }
}

/// The categories whose tools form one workflow.
pub open spec fn is_family(category: ToolCategory) -> bool {
    ||| category == ToolCategory::AgentId
    ||| category == ToolCategory::AgentIdBrowser
    ||| category == ToolCategory::BrowserBuiltin
}

/// The names of the visible tools of a category, but for one name.
pub open spec fn family_names(
    defs: Seq<ToolDefView>,
    category: ToolCategory,
    but: Seq<char>,
    shape: ToolContextShape,
    catalog: CatalogView,
) -> Seq<Seq<char>>
    decreases defs.len(),
{
    if defs.len() == 0 {
        Seq::empty()
    } else {
        let before = family_names(defs.drop_last(), category, but, shape, catalog);
        let def = defs.last();
        if def.category == category && visible(def, shape, catalog) && def.name != but {
            before.push(def.name)
        } else {
            before
        }
    }
}

/// The tools that are loaded along with the one of this name.
pub open spec fn siblings_of(
    runtime: ToolRuntimeView,
    catalog: CatalogView,
    name: Seq<char>,
) -> Seq<Seq<char>> {
    let name = text::trimmed(name);
    match remote_tool(runtime, name) {
        Some(tool) => tool.siblings,
        None => match spec::def_named(catalog.defs, name) {
            Some(def) => if is_family(def.category) {
                order::ordered_set(
                    family_names(catalog.defs, def.category, name, shape_of(runtime), catalog),
                )
            } else {
                Seq::empty()
            },
            None => Seq::empty(),
        },
    }
}

/// The tools of one turn.
#[derive(Debug)]
pub struct ToolRegistry<'a> {
    pub memory: HostHandle,
    pub files: FileTools,
    pub image: ImageTools,
    pub shell: HostHandle,
    pub web: WebTools,
    pub browser: BrowserTools,
    pub runtime: ToolRuntime,
    pub catalog: &'a Catalog,
}

impl<'a> Clone for ToolRegistry<'a> {
    fn clone(&self) -> (r: ToolRegistry<'a>)
        ensures
            r.runtime@ == self.runtime@,
            r.catalog == self.catalog,
            r.memory == self.memory,
            r.shell == self.shell,
            r.files.workspace_dir@ == self.files.workspace_dir@,
            r.files.sandboxed == self.files.sandboxed,
            r.image.workspace_dir@ == self.image.workspace_dir@,
            r.image.sandboxed == self.image.sandboxed,
            r.web.cache_dir@ == self.web.cache_dir@,
            r.browser.cache_dir@ == self.browser.cache_dir@,
            r.browser.hosted == self.browser.hosted,
    {
        ToolRegistry {
            memory: self.memory,
            files: self.files.clone(),
            image: self.image.clone(),
            shell: self.shell,
            web: self.web.clone(),
            browser: self.browser.clone(),
            runtime: self.runtime.clone(),
            catalog: self.catalog,
        }
    }
}

impl<'a> ToolRegistry<'a> {
    /// A turn with nothing attached and the full catalog.
    pub fn new(
        memory: HostHandle,
        workspace_dir: &str,
        cache_dir: &str,
        shell: HostHandle,
        catalog: &'a Catalog,
    ) -> (r: ToolRegistry<'a>)
        ensures
            r.runtime@ == bare_runtime(),
            r.catalog == catalog,
            r.memory == memory,
            r.shell == shell,
            r.files.workspace_dir@ == workspace_dir@ && !r.files.sandboxed,
            r.image.workspace_dir@ == workspace_dir@ && !r.image.sandboxed,
            r.web.cache_dir@ == cache_dir@,
            r.browser.cache_dir@ == cache_dir@ && !r.browser.hosted,
    {
        ToolRegistry::with_runtime(
            memory,
            workspace_dir,
            cache_dir,
            shell,
            ToolRuntime::default(),
            catalog,
        )
    }

    /// A turn with this at hand. Under the hosted policy its file and image
    /// tools are confined to the workspace, and its browser is the hosted one.
    pub fn with_runtime(
        memory: HostHandle,
        workspace_dir: &str,
        cache_dir: &str,
        shell: HostHandle,
        runtime: ToolRuntime,
        catalog: &'a Catalog,
    ) -> (r: ToolRegistry<'a>)
        ensures
            r.runtime == runtime,
            r.catalog == catalog,
            r.memory == memory,
            r.shell == shell,
            r.files.workspace_dir@ == workspace_dir@,
            r.files.sandboxed == (runtime.policy == ToolPolicy::HostedSafe),
            r.image.workspace_dir@ == workspace_dir@,
            r.image.sandboxed == (runtime.policy == ToolPolicy::HostedSafe),
            r.web.cache_dir@ == cache_dir@,
            r.browser.cache_dir@ == cache_dir@,
            r.browser.hosted == (runtime.policy == ToolPolicy::HostedSafe),
    {
        let hosted = runtime.policy == ToolPolicy::HostedSafe;
        ToolRegistry {
            memory,
            files: FileTools { workspace_dir: workspace_dir.to_owned(), sandboxed: hosted },
            image: ImageTools { workspace_dir: workspace_dir.to_owned(), sandboxed: hosted },
            shell,
            web: WebTools { cache_dir: cache_dir.to_owned() },
            browser: BrowserTools { cache_dir: cache_dir.to_owned(), hosted },
            runtime,
            catalog,
        }
    }

    /// Whether a gateway advertises a remote tool of this name.
    pub fn has_remote(&self, name: &str) -> (r: bool)
        ensures
            r == (remote_tool(self.runtime@, name@) is Some),
    {
        match &self.runtime.hosted_plugins {
            Some(client) => client.tool(name).is_some(),
            None => false,
        }
    }

    /// Whether a gateway replaces the built-in tool of this name.
    pub fn replaces(&self, name: &str) -> (r: bool)
        ensures
            r == is_replaced(self.runtime@, name@),
    {
        match &self.runtime.hosted_plugins {
            Some(client) => client.replaces_builtin(name),
            None => false,
        }
    }

    /// Whether the policy admits the built-in tool of this name.
    pub fn policy_allows(&self, name: &str) -> (r: bool)
        ensures
            r == allows(self.runtime@.policy, name@, self.catalog@.defs),
    {
        self.runtime.policy.allows_builtin(name, self.catalog)
    }

    /// Whether the turn starts with the tool of this name.
    pub fn is_initial_tool(&self, name: &str) -> (r: bool)
        ensures
            r == starts_loaded(self.runtime@, self.catalog@, name@),
    {
        if let Some(client) = &self.runtime.hosted_plugins {
            if let Some(tool) = client.tool(name) {
                if tool.exposure == RemoteToolExposure::Initial {
                    return true;
                }
            }
        }
        if self.replaces(name) {
            return false;
        }
        match self.catalog.find_def(name) {
            Some(def) => self.runtime.shape().loads(def.category, self.catalog),
            None => false,
        }
    }

    /// Every tool that the turn can have: the built-in ones, then the remote
    /// ones.
    pub fn tools(&self) -> (r: Vec<ToolSummary>)
        ensures
            text::views(r@) == all_tools(self.runtime@, self.catalog@),
    {
        broadcast use text::lemma_views_push;

        let ghost all = self.catalog@.defs;
        let shape = self.runtime.shape();
        let mut out: Vec<ToolSummary> = Vec::new();
        let mut i: usize = 0;
        assert(text::views(out@) =~= local_tools(all.take(0), self.runtime@, self.catalog@));
        while i < self.catalog.defs.len()
            invariant
                i <= self.catalog.defs.len(),
                all == self.catalog@.defs,
                shape == shape_of(self.runtime@),
                text::views(out@) == local_tools(
                    all.take(i as int),
                    self.runtime@,
                    self.catalog@,
                ),
            decreases self.catalog.defs.len() - i,
        {
            let def = &self.catalog.defs[i];
            assert(all.take(i + 1).drop_last() =~= all.take(i as int));
            assert(all.take(i + 1).last() == def@);
            if shape.sees(def, self.catalog) && !self.replaces(def.name.as_str()) {
                out.push(
                    ToolSummary {
                        name: def.name.as_str().to_owned(),
                        description: def.description.as_str().to_owned(),
                    },
                );
            }
            i = i + 1;
        }
        assert(all.take(all.len() as int) =~= all);
        let ghost local = text::views(out@);
        let ghost remote = remote_tools(self.runtime@);
        match &self.runtime.hosted_plugins {
            Some(client) => {
                let mut k: usize = 0;
                assert(text::views(out@) =~= local + remote.take(0));
                while k < client.tools.len()
                    invariant
                        k <= client.tools.len(),
                        self.runtime@.hosted_plugins == Some(client@),
                        remote == remote_tools(self.runtime@),
                        text::views(out@) == local + remote.take(k as int),
                    decreases client.tools.len() - k,
                {
                    let tool = &client.tools[k];
                    let ghost before = out@;
                    out.push(
                        ToolSummary {
                            name: tool.name.as_str().to_owned(),
                            description: tool.description.as_str().to_owned(),
                        },
                    );
                    assert(client@.tools[k as int] == tool@);
                    assert(text::views(out@) == text::views(before).push(remote[k as int]));
                    assert(text::views(out@) =~= local + remote.take(k + 1));
                    k = k + 1;
                }
                assert(remote.take(remote.len() as int) =~= remote);
            },
            None => {
                assert(local + remote =~= local);
            },
        }
        out
    }

    /// The tools that are loaded: those of the start, and those in
    /// `active_tools`.
    pub fn tools_for_active(&self, active_tools: &Vec<String>) -> (r: Vec<ToolSummary>)
        ensures
            text::views(r@) == active_tools_of(
                all_tools(self.runtime@, self.catalog@),
                self.runtime@,
                self.catalog@,
                text::views(active_tools@),
            ),
    {
        broadcast use text::lemma_views_push;

        let tools = self.tools();
        let ghost all = text::views(tools@);
        let ghost active = text::views(active_tools@);
        let mut out: Vec<ToolSummary> = Vec::new();
        let mut i: usize = 0;
        assert(text::views(out@) =~= active_tools_of(
            all.take(0),
            self.runtime@,
            self.catalog@,
            active,
        ));
        while i < tools.len()
            invariant
                i <= tools.len(),
                all == text::views(tools@),
                active == text::views(active_tools@),
                text::views(out@) == active_tools_of(
                    all.take(i as int),
                    self.runtime@,
                    self.catalog@,
                    active,
                ),
            decreases tools.len() - i,
        {
            let tool = &tools[i];
            assert(all.take(i + 1).drop_last() =~= all.take(i as int));
            assert(all.take(i + 1).last() == tool@);
            if self.tool_is_active(tool.name.as_str(), active_tools) {
                out.push(
                    ToolSummary {
                        name: tool.name.as_str().to_owned(),
                        description: tool.description.as_str().to_owned(),
                    },
                );
            }
            i = i + 1;
        }
        assert(all.take(all.len() as int) =~= all);
        out
    }

    /// Whether the turn can have the tool of this name, now or on request.
    pub fn tool_is_available(&self, name: &str) -> (r: bool)
        ensures
            r == is_available(self.runtime@, self.catalog@, name@),
    {
        let name = trim(name);
        if self.has_remote(name) {
            return true;
        }
        if self.replaces(name) {
            return false;
        }
        match self.catalog.find_def(name) {
            Some(def) => self.runtime.shape().sees(def, self.catalog),
            None => false,
        }
    }

    /// Whether the tool of this name is loaded: from the start or since.
    pub fn tool_is_active(&self, name: &str, active_tools: &Vec<String>) -> (r: bool)
        ensures
            r == is_active(self.runtime@, self.catalog@, text::views(active_tools@), name@),
    {
        self.is_initial_tool(name) || holds_text(active_tools, name)
    }

    /// Who watches the turn, if anyone does.
    pub fn turn_observer(&self) -> (r: Option<HostHandle>)
        ensures
            r == self.runtime@.observer,
    {
        self.runtime.observer
    }

    /// The names of the tools that the turn can ask for, in order and without
    /// repeats.
    pub fn requestable_tool_names(&self) -> (r: Vec<String>)
        ensures
            text::views(r@) == order::ordered_set(requestable_names(self.runtime@, self.catalog@)),
    {
        broadcast use text::lemma_views_push;

        let ghost all = self.catalog@.defs;
        let shape = self.runtime.shape();
        let mut names: Vec<String> = Vec::new();
        let mut i: usize = 0;
        assert(text::views(names@) =~= local_requestable(
            all.take(0),
            self.runtime@,
            self.catalog@,
        ));
        while i < self.catalog.defs.len()
            invariant
                i <= self.catalog.defs.len(),
                all == self.catalog@.defs,
                shape == shape_of(self.runtime@),
                text::views(names@) == local_requestable(
                    all.take(i as int),
                    self.runtime@,
                    self.catalog@,
                ),
            decreases self.catalog.defs.len() - i,
        {
            let def = &self.catalog.defs[i];
            assert(all.take(i + 1).drop_last() =~= all.take(i as int));
            assert(all.take(i + 1).last() == def@);
            if shape.can_request(def, self.catalog) && !self.replaces(def.name.as_str()) {
                names.push(def.name.as_str().to_owned());
            }
            i = i + 1;
        }
        assert(all.take(all.len() as int) =~= all);
        let ghost local = text::views(names@);
        match &self.runtime.hosted_plugins {
            Some(client) => {
                let ghost tools = client@.tools;
                let mut k: usize = 0;
                assert(text::views(names@) =~= local + remote_requestable(tools.take(0)));
                while k < client.tools.len()
                    invariant
                        k <= client.tools.len(),
                        tools == client@.tools,
                        text::views(names@) == local + remote_requestable(tools.take(k as int)),
                    decreases client.tools.len() - k,
                {
                    let tool = &client.tools[k];
                    assert(tools.take(k + 1).drop_last() =~= tools.take(k as int));
                    assert(tools.take(k + 1).last() == tool@);
                    if tool.exposure == RemoteToolExposure::Requestable {
                        let ghost before = names@;
                        names.push(tool.name.as_str().to_owned());
                        assert(text::views(names@) == text::views(before).push(tool@.name));
                        assert(text::views(names@) =~= local + remote_requestable(
                            tools.take(k + 1),
                        ));
                    }
                    k = k + 1;
                }
                assert(tools.take(tools.len() as int) =~= tools);
            },
            None => {
                assert(local + Seq::empty() =~= local);
            },
        }
        sort_unique(&names)
    }

    /// One line for each tool that the turn can ask for.
    pub fn requestable_tools_directory(&self) -> (r: String)
        ensures
            r@ == runtime_directory(self.runtime@, self.catalog@),
    {
        requestable_tools_directory_for(&self.runtime, self.catalog)
    }

    /// The tools that are loaded along with the one of this name: the rest of
    /// its family, so that a workflow never stalls on a tool that is there but
    /// not loaded.
    pub fn group_siblings(&self, name: &str) -> (r: Vec<String>)
        ensures
            text::views(r@) == siblings_of(self.runtime@, self.catalog@, name@),
    {
        broadcast use text::lemma_views_push;

        let name = trim(name);
        if let Some(client) = &self.runtime.hosted_plugins {
            if let Some(tool) = client.tool(name) {
                return copy_texts(&tool.siblings);
            }
        }
        let mut names: Vec<String> = Vec::new();
        let def = match self.catalog.find_def(name) {
            Some(def) => def,
            None => {
                assert(text::views(names@) =~= Seq::empty());
                return names;
            },
        };
        if def.category != ToolCategory::AgentId && def.category != ToolCategory::AgentIdBrowser
            && def.category != ToolCategory::BrowserBuiltin {
            assert(text::views(names@) =~= Seq::empty());
            return names;
        }
        let ghost all = self.catalog@.defs;
        let shape = self.runtime.shape();
        let mut i: usize = 0;
        assert(text::views(names@) =~= family_names(
            all.take(0),
            def.category,
            name@,
            shape,
            self.catalog@,
        ));
        while i < self.catalog.defs.len()
            invariant
                i <= self.catalog.defs.len(),
                all == self.catalog@.defs,
                text::views(names@) == family_names(
                    all.take(i as int),
                    def.category,
                    name@,
                    shape,
                    self.catalog@,
                ),
            decreases self.catalog.defs.len() - i,
        {
            let sibling = &self.catalog.defs[i];
            assert(all.take(i + 1).drop_last() =~= all.take(i as int));
            assert(all.take(i + 1).last() == sibling@);
            if sibling.category == def.category && shape.sees(sibling, self.catalog)
                && !same_text(sibling.name.as_str(), name) {
                names.push(sibling.name.as_str().to_owned());
            }
            i = i + 1;
        }
        assert(all.take(all.len() as int) =~= all);
        sort_unique(&names)
    }
}

/// A copy of the texts.
fn copy_texts(texts: &Vec<String>) -> (r: Vec<String>)
    ensures
        text::views(r@) == text::views(texts@),
{
    let mut out: Vec<String> = Vec::new();
    let mut i: usize = 0;
    while i < texts.len()
        invariant
            i <= texts.len(),
            out.len() == i,
            forall|k: int| 0 <= k < i ==> #[trigger] out@[k]@ == texts@[k]@,
        decreases texts.len() - i,
    {
        out.push(texts[i].as_str().to_owned());
        i = i + 1;
    }
    assert(text::views(out@) =~= text::views(texts@));
    out
}

} // verus!
