//! Which turn sees which tool, told for each kind of tool.
use vstd::prelude::*;

use crate::order;
use crate::text;
use crate::tools::hosted_plugins;
use crate::tools::hosted_plugins::RemoteToolExposure;
use crate::tools::registry;
use crate::tools::registry::ToolContextShape;
use crate::tools::registry::ToolPolicy;
use crate::tools::registry::ToolRuntimeView;
use crate::tools::registry::ToolSummaryView;
use crate::tools::registry::laws;
use crate::tools::spec;
use crate::tools::spec::CatalogView;
use crate::tools::spec::ToolCategory;
use crate::tools::spec::ToolDefView;

verus! {

/// A tool of which the policy approves is visible by what its category asks
/// of the turn and of the host, and by nothing else:
/// - tools of workers where there is an actor, and those of subagents in turns
///   of a subagent alone;
/// - the tools of a transport where it is attached, Telegram before the client;
/// - identity and vault tools where they are installed, and under the hosted
///   policy only with tenant-private state; the sealed browser likewise;
/// - the built-in browser where no sealed one is installed, and never under the
///   hosted policy;
/// - the knowledge graph where one is configured, and all others always.
pub proof fn law_category_decides_visibility(
    def: ToolDefView,
    shape: ToolContextShape,
    catalog: CatalogView,
)
    requires
        registry::allows(shape.policy, def.name, catalog.defs),
    ensures
        ({
            let seen = registry::visible(def, shape, catalog);
            let hosted = shape.policy == ToolPolicy::HostedSafe;
            let host = catalog.host;
            &&& def.category == ToolCategory::Actor ==> seen == shape.has_actor
            &&& def.category == ToolCategory::ActorSubagent ==> seen == shape.is_subagent
            &&& def.category == ToolCategory::Transport ==> seen == shape.has_telegram
            &&& def.category == ToolCategory::TransportClient && shape.has_telegram ==> !seen
            &&& def.category == ToolCategory::TransportClient && !shape.has_telegram ==> seen
                == shape.has_client
            &&& def.category == ToolCategory::KnowledgeGraph ==> seen == host.knowledge_graph
            &&& def.category == ToolCategory::AgentId && !hosted ==> seen == host.vault_tools
            &&& def.category == ToolCategory::AgentId && hosted && shape.has_agent_id_state ==> seen
                == host.vault_tools
            &&& def.category == ToolCategory::AgentIdBrowser && !hosted ==> seen
                == host.browser_tools
            &&& def.category == ToolCategory::AgentIdBrowser && hosted && shape.has_agent_id_state
                ==> seen == host.browser_tools
            &&& hosted && !shape.has_agent_id_state && (def.category == ToolCategory::AgentId
                || def.category == ToolCategory::AgentIdBrowser) ==> !seen
            &&& def.category == ToolCategory::BrowserBuiltin && hosted ==> !seen
            &&& def.category == ToolCategory::BrowserBuiltin && !hosted ==> seen
                == !host.browser_tools
            &&& def.category == ToolCategory::Initial ==> seen
            &&& def.category == ToolCategory::Requestable ==> seen
            &&& def.category == ToolCategory::CortexOnly ==> seen
        }),
{
}

/// Whatever the category, the policy has a veto.
pub proof fn law_policy_has_a_veto(
    def: ToolDefView,
    shape: ToolContextShape,
    catalog: CatalogView,
)
    requires
        !registry::allows(shape.policy, def.name, catalog.defs),
    ensures
        !registry::visible(def, shape, catalog),
        !registry::requestable(def, shape, catalog),
{
}

/// What a turn sees it has from the start, or it can ask for it, and never
/// both; the tool for asking is never asked for. The built-in and the sealed
/// browser, identity and vault tools, and those that are meant for it, are on
/// request; what is meant for the cortex alone is on request for subagents.
/// All other visible tools are there from the start.
pub proof fn law_seen_is_loaded_or_on_request(
    def: ToolDefView,
    shape: ToolContextShape,
    catalog: CatalogView,
)
    requires
        registry::visible(def, shape, catalog),
    ensures
        ({
            let loaded = registry::initial(def.category, shape, catalog);
            let asked = registry::requestable(def, shape, catalog);
            &&& def.name != "request_tool"@ ==> asked == !loaded
            &&& def.name == "request_tool"@ ==> !asked
            &&& def.category == ToolCategory::Requestable ==> !loaded
            &&& def.category == ToolCategory::BrowserBuiltin ==> !loaded
            &&& def.category == ToolCategory::AgentId ==> !loaded
            &&& def.category == ToolCategory::AgentIdBrowser ==> !loaded
            &&& def.category == ToolCategory::CortexOnly ==> loaded == !shape.is_subagent
            &&& def.category == ToolCategory::Initial ==> loaded
            &&& def.category == ToolCategory::Actor ==> loaded
            &&& def.category == ToolCategory::ActorSubagent ==> loaded
            &&& def.category == ToolCategory::Transport ==> loaded
            &&& def.category == ToolCategory::TransportClient ==> loaded
            &&& def.category == ToolCategory::KnowledgeGraph ==> loaded
        }),
{
}

/// A turn does not start with the tools of workers, of subagents, of a
/// transport or of a knowledge graph that it does not have.
pub proof fn law_absent_is_not_loaded(shape: ToolContextShape, catalog: CatalogView)
    ensures
        registry::initial(ToolCategory::Actor, shape, catalog) ==> shape.has_actor,
        registry::initial(ToolCategory::ActorSubagent, shape, catalog) ==> shape.is_subagent,
        registry::initial(ToolCategory::Transport, shape, catalog) ==> shape.has_telegram,
        registry::initial(ToolCategory::TransportClient, shape, catalog) ==> shape.has_client
            && !shape.has_telegram,
        registry::initial(ToolCategory::KnowledgeGraph, shape, catalog)
            ==> catalog.host.knowledge_graph,
{
}

/// What is not visible can not be asked for.
pub proof fn law_unseen_is_not_on_request(
    def: ToolDefView,
    shape: ToolContextShape,
    catalog: CatalogView,
)
    requires
        !registry::visible(def, shape, catalog),
    ensures
        !registry::requestable(def, shape, catalog),
{
}

/// The shape of a turn says what the turn has at hand: an actor, whether that
/// is a subagent, each transport, tenant-private state, and the policy.
pub proof fn law_shape_says_what_is_at_hand(runtime: ToolRuntimeView)
    ensures
        ({
            let shape = registry::shape_of(runtime);
            &&& shape.has_actor <==> runtime.actor is Some
            &&& shape.is_subagent <==> (runtime.actor matches Some(context) && context.is_subagent)
            &&& shape.has_telegram <==> runtime.telegram is Some
            &&& shape.has_client <==> runtime.client is Some
            &&& shape.has_agent_id_state <==> runtime.agent_id_state_dir is Some
            &&& shape.policy == runtime.policy
        }),
{
}

/// A turn with nothing attached has no actor, no transport, no tenant-private
/// state and no gateway, has asked for nothing, and is under the full policy.
pub proof fn law_bare_turn_has_nothing()
    ensures
        ({
            let runtime = registry::bare_runtime();
            &&& runtime.telegram is None && runtime.client is None && runtime.actor is None
            &&& runtime.observer is None && runtime.secure_prompt is None
            &&& runtime.agent_id_state_dir is None && runtime.hosted_plugins is None
            &&& runtime.policy == ToolPolicy::Full
            &&& runtime.requested_tools.len() == 0
        }),
{
}

/// The names that the hosted policy lists one by one.
pub open spec fn listed_by_hosted(name: Seq<char>) -> bool {
    seq![
        "request_tool"@,
        "chat_send_message"@,
        "read_file"@,
        "write_file"@,
        "edit_file"@,
        "list_directory"@,
        "glob_search"@,
        "grep_search"@,
        "view_image"@,
    ].contains(name)
}

/// The starts of names that the hosted policy lists.
pub open spec fn hosted_starts() -> Seq<Seq<char>> {
    seq![
        "memory_"@,
        "archival_"@,
        "conversation_"@,
        "note_"@,
        "todo_"@,
        "agent_id_"@,
        "vault_"@,
        "alien_browser_"@,
    ]
}

/// The hosted policy is an allowlist: it admits the names that it lists, the
/// names that start as those of a listed family, the tools that manage workers
/// and nothing else.
pub proof fn law_hosted_is_an_allowlist(name: Seq<char>, defs: Seq<ToolDefView>)
    ensures
        registry::allows(ToolPolicy::HostedSafe, name, defs) <==> {
            ||| listed_by_hosted(name)
            ||| exists|k: int|
                0 <= k < hosted_starts().len() && (#[trigger] hosted_starts()[k]).is_prefix_of(name)
            ||| spec::def_named(defs, name) matches Some(def) && (def.category
                == ToolCategory::Actor || def.category == ToolCategory::ActorSubagent)
        },
{
    let listed = seq![
        "request_tool"@,
        "chat_send_message"@,
        "read_file"@,
        "write_file"@,
        "edit_file"@,
        "list_directory"@,
        "glob_search"@,
        "grep_search"@,
        "view_image"@,
    ];
    assert(listed[0] == "request_tool"@);
    assert(listed[1] == "chat_send_message"@);
    assert(listed[2] == "read_file"@);
    assert(listed[3] == "write_file"@);
    assert(listed[4] == "edit_file"@);
    assert(listed[5] == "list_directory"@);
    assert(listed[6] == "glob_search"@);
    assert(listed[7] == "grep_search"@);
    assert(listed[8] == "view_image"@);
    let starts = hosted_starts();
    assert(starts[0] == "memory_"@);
    assert(starts[1] == "archival_"@);
    assert(starts[2] == "conversation_"@);
    assert(starts[3] == "note_"@);
    assert(starts[4] == "todo_"@);
    assert(starts[5] == "agent_id_"@);
    assert(starts[6] == "vault_"@);
    assert(starts[7] == "alien_browser_"@);
}

/// Whether a turn can have the tool of this name is decided once: a remote tool
/// of the name makes it available; a replacement without one makes it
/// unavailable; otherwise it is available exactly where the catalog's tool of
/// the name is visible.
pub proof fn law_available_in_three_cases(
    runtime: ToolRuntimeView,
    catalog: CatalogView,
    name: Seq<char>,
)
    ensures
        ({
            let wanted = text::trimmed(name);
            let had = registry::is_available(runtime, catalog, name);
            &&& (runtime.hosted_plugins matches Some(client) && exists|i: int|
                0 <= i < client.tools.len() && (#[trigger] client.tools[i]).name == wanted) ==> had
            &&& (runtime.hosted_plugins matches Some(client) && client.replaced.contains(wanted)
                && forall|i: int|
                0 <= i < client.tools.len() ==> (#[trigger] client.tools[i]).name != wanted)
                ==> !had
            &&& (runtime.hosted_plugins is None || !runtime.hosted_plugins->0.replaced.contains(
                wanted,
            ) && forall|i: int|
                0 <= i < runtime.hosted_plugins->0.tools.len() ==> (
                #[trigger] runtime.hosted_plugins->0.tools[i]).name != wanted) ==> (had <==> (
            spec::def_named(catalog.defs, wanted) matches Some(def) && registry::visible(
                def,
                registry::shape_of(runtime),
                catalog,
            )))
        }),
{
    if let Some(client) = runtime.hosted_plugins {
        hosted_plugins::law_missing_remote_is_not_found(client.tools, text::trimmed(name));
    }
}

/// The tools of subagents are for subagents alone: in any other turn one of
/// them is neither visible nor available, is not listed, and can not be asked
/// for, unless a gateway offers a tool of its own under that name.
pub proof fn law_subagent_tools_are_for_subagents(
    runtime: ToolRuntimeView,
    catalog: CatalogView,
    i: int,
)
    requires
        laws::well_named(catalog),
        0 <= i < catalog.defs.len(),
        catalog.defs[i].category == ToolCategory::ActorSubagent,
        registry::remote_tool(runtime, catalog.defs[i].name) is None,
        runtime.actor matches Some(context) ==> !context.is_subagent,
    ensures
        ({
            let name = catalog.defs[i].name;
            &&& !registry::visible(catalog.defs[i], registry::shape_of(runtime), catalog)
            &&& !registry::is_available(runtime, catalog, name)
            &&& !registry::starts_loaded(runtime, catalog, name)
            &&& !order::ordered_set(registry::requestable_names(runtime, catalog)).contains(name)
            &&& forall|k: int|
                0 <= k < registry::all_tools(runtime, catalog).len() ==> (
                #[trigger] registry::all_tools(runtime, catalog)[k]).name != name
        }),
{
    let name = catalog.defs[i].name;
    let shape = registry::shape_of(runtime);
    spec::law_first_def_is_found(catalog.defs, name, i);
    laws::law_requestable_names_are_complete(runtime, catalog, name);
    if laws::offered_on_request(runtime, name) {
        let tools = runtime.hosted_plugins->0.tools;
        hosted_plugins::law_missing_remote_is_not_found(tools, name);
    }
    if laws::held_on_request(runtime, catalog, name) {
        let k = choose|k: int|
            0 <= k < catalog.defs.len() && (#[trigger] catalog.defs[k]).name == name
                && registry::requestable(catalog.defs[k], shape, catalog);
        assert(k == i);
    }
    assert(!registry::is_available(runtime, catalog, name));
    let all = registry::all_tools(runtime, catalog);
    assert forall|k: int| 0 <= k < all.len() implies (#[trigger] all[k]).name != name by {
        if all[k].name == name {
            assert(all.contains(all[k]));
            laws::law_listed_is_available(runtime, catalog, all[k]);
        }
    }
}

/// A turn starts with a tool where the gateway says so of a remote tool of
/// that name; otherwise never with one that the gateway replaces; otherwise
/// where the catalog's tool of the name is there from the start.
pub proof fn law_start_of_a_turn(
    runtime: ToolRuntimeView,
    catalog: CatalogView,
    active: Seq<Seq<char>>,
    name: Seq<char>,
)
    ensures
        ({
            let loaded = registry::starts_loaded(runtime, catalog, name);
            let pushed = registry::remote_tool(runtime, name) matches Some(tool) && tool.exposure
                == RemoteToolExposure::Initial;
            let replaced = runtime.hosted_plugins matches Some(client) && client.replaced.contains(
                name,
            );
            &&& pushed ==> loaded
            &&& !pushed && replaced ==> !loaded
            &&& !pushed && !replaced ==> (loaded <==> (spec::def_named(
                catalog.defs,
                name,
            ) matches Some(def) && registry::initial(
                def.category,
                registry::shape_of(runtime),
                catalog,
            )))
            &&& registry::is_replaced(runtime, name) == replaced
            &&& registry::is_active(runtime, catalog, active, name) == (loaded || active.contains(
                name,
            ))
        }),
{
}

/// The remote tool of a name is the first that the gateway advertises under
/// it; there is none where the gateway advertises none, or is not there.
pub proof fn law_remote_tool_is_the_gateways(
    runtime: ToolRuntimeView,
    name: Seq<char>,
    i: int,
)
    ensures
        registry::remote_tool(runtime, name) is None <==> (runtime.hosted_plugins matches Some(
            client,
        ) ==> forall|k: int|
            0 <= k < client.tools.len() ==> (#[trigger] client.tools[k]).name != name),
        runtime.hosted_plugins matches Some(client) ==> (0 <= i < client.tools.len()
            && client.tools[i].name == name && (forall|k: int|
            0 <= k < i ==> (#[trigger] client.tools[k]).name != name) ==> registry::remote_tool(
            runtime,
            name,
        ) == Some(client.tools[i])),
{
    if let Some(client) = runtime.hosted_plugins {
        hosted_plugins::law_missing_remote_is_not_found(client.tools, name);
        if 0 <= i < client.tools.len() && client.tools[i].name == name && (forall|k: int|
            0 <= k < i ==> (#[trigger] client.tools[k]).name != name) {
            hosted_plugins::law_first_remote_is_found(client.tools, name, i);
        }
    }
}

proof fn lemma_local_tools_are_filtered(
    defs: Seq<ToolDefView>,
    runtime: ToolRuntimeView,
    catalog: CatalogView,
)
    ensures
        ({
            let kept = defs.filter(
                |def: ToolDefView|
                    registry::visible(def, registry::shape_of(runtime), catalog)
                        && !registry::is_replaced(runtime, def.name),
            );
            let local = registry::local_tools(defs, runtime, catalog);
            &&& local.len() == kept.len()
            &&& forall|k: int|
                0 <= k < kept.len() ==> (#[trigger] local[k]).name == kept[k].name
                    && local[k].description == kept[k].description
        }),
    decreases defs.len(),
{
    reveal(Seq::filter);
    if defs.len() > 0 {
        lemma_local_tools_are_filtered(defs.drop_last(), runtime, catalog);
    }
}

/// A turn is listed the built-in tools that it sees and that no gateway
/// replaces, in catalog order, and behind them every remote tool in the order of
/// the gateway: each under its own name and with its own description.
pub proof fn law_tools_are_listed_in_order(runtime: ToolRuntimeView, catalog: CatalogView)
    ensures
        ({
            let kept = catalog.defs.filter(
                |def: ToolDefView|
                    registry::visible(def, registry::shape_of(runtime), catalog)
                        && !registry::is_replaced(runtime, def.name),
            );
            let remote = match runtime.hosted_plugins {
                Some(client) => client.tools,
                None => Seq::empty(),
            };
            let all = registry::all_tools(runtime, catalog);
            &&& all.len() == kept.len() + remote.len()
            &&& forall|k: int|
                0 <= k < kept.len() ==> (#[trigger] all[k]).name == kept[k].name
                    && all[k].description == kept[k].description
            &&& forall|k: int|
                kept.len() <= k < all.len() ==> (#[trigger] all[k]).name == remote[k
                    - kept.len()].name && all[k].description == remote[k - kept.len()].description
        }),
{
    lemma_local_tools_are_filtered(catalog.defs, runtime, catalog);
}

/// The loaded tools are the active ones among those that are listed, in their
/// order.
pub proof fn law_loaded_tools_keep_their_order(
    tools: Seq<ToolSummaryView>,
    runtime: ToolRuntimeView,
    catalog: CatalogView,
    active: Seq<Seq<char>>,
)
    ensures
        registry::active_tools_of(tools, runtime, catalog, active) == tools.filter(
            |tool: ToolSummaryView|
                registry::starts_loaded(runtime, catalog, tool.name) || active.contains(tool.name),
        ),
    decreases tools.len(),
{
    reveal(Seq::filter);
    if tools.len() > 0 {
        law_loaded_tools_keep_their_order(tools.drop_last(), runtime, catalog, active);
    } else {
        assert(registry::active_tools_of(tools, runtime, catalog, active) =~= tools);
    }
}

/// What is loaded along with a tool: for a remote tool what the gateway says,
/// for a built-in tool of a family the rest of it in order, and otherwise
/// nothing. The families are identity and vault, the sealed browser and the
/// built-in browser.
pub proof fn law_siblings_by_case(
    runtime: ToolRuntimeView,
    catalog: CatalogView,
    name: Seq<char>,
)
    ensures
        ({
            let wanted = text::trimmed(name);
            let siblings = registry::siblings_of(runtime, catalog, name);
            &&& registry::remote_tool(runtime, wanted) matches Some(tool) ==> siblings
                == tool.siblings
            &&& registry::remote_tool(runtime, wanted) is None && spec::def_named(
                catalog.defs,
                wanted,
            ) is None ==> siblings.len() == 0
            &&& registry::remote_tool(runtime, wanted) is None && (spec::def_named(
                catalog.defs,
                wanted,
            ) matches Some(def) && def.category != ToolCategory::AgentId && def.category
                != ToolCategory::AgentIdBrowser && def.category != ToolCategory::BrowserBuiltin)
                ==> siblings.len() == 0
            &&& registry::remote_tool(runtime, wanted) is None ==> !siblings.contains(wanted)
            &&& registry::remote_tool(runtime, wanted) is None ==> forall|a: int, b: int|
                0 <= a < b < siblings.len() ==> order::text_lt(
                    #[trigger] siblings[a],
                    #[trigger] siblings[b],
                )
        }),
        registry::is_family(ToolCategory::AgentId),
        registry::is_family(ToolCategory::AgentIdBrowser),
        registry::is_family(ToolCategory::BrowserBuiltin),
{
    let wanted = text::trimmed(name);
    if let Some(def) = spec::def_named(catalog.defs, wanted) {
        let shape = registry::shape_of(runtime);
        let family = registry::family_names(catalog.defs, def.category, wanted, shape, catalog);
        order::lemma_ordered_set(family);
        lemma_not_its_own_sibling(catalog.defs, def.category, wanted, shape, catalog);
        assert(order::ordered_set(family).contains(wanted) <==> family.contains(wanted));
    }
}

proof fn lemma_not_its_own_sibling(
    defs: Seq<ToolDefView>,
    category: ToolCategory,
    but: Seq<char>,
    shape: ToolContextShape,
    catalog: CatalogView,
)
    ensures
        !registry::family_names(defs, category, but, shape, catalog).contains(but),
    decreases defs.len(),
{
    if defs.len() > 0 {
        let names = registry::family_names(defs, category, but, shape, catalog);
        let before = registry::family_names(defs.drop_last(), category, but, shape, catalog);
        lemma_not_its_own_sibling(defs.drop_last(), category, but, shape, catalog);
        if names.contains(but) {
            let k = choose|k: int| 0 <= k < names.len() && names[k] == but;
            if k < before.len() {
                assert(before[k] == but);
            }
        }
    }
}

/// A directory line is a dash and the name, a longer dash and the description.
/// A line of another form names no tool.
pub proof fn law_directory_line_reads(def: ToolDefView, line: Seq<char>)
    ensures
        ({
            let own = registry::directory_line(def);
            let n = def.name.len() as int;
            &&& own.len() == n + def.description.len() + 5
            &&& own.take(2) == "- "@
            &&& own.subrange(2, 2 + n) == def.name
            &&& own.subrange(2 + n, 5 + n) == " — "@
            &&& own.skip(5 + n) == def.description
        }),
        !"- "@.is_prefix_of(line) ==> registry::name_in_line(line).len() == 0,
        (forall|k: int|
            0 <= k && k + 3 <= line.len() ==> #[trigger] line.subrange(k, k + 3) != " — "@)
            ==> registry::name_in_line(line).len() == 0,
{
    let own = registry::directory_line(def);
    let n = def.name.len() as int;
    reveal_strlit("- ");
    reveal_strlit(" — ");
    assert(own.take(2) =~= "- "@);
    assert(own.subrange(2, 2 + n) =~= def.name);
    assert(own.subrange(2 + n, 5 + n) =~= " — "@);
    assert(own.skip(5 + n) =~= def.description);
    if (forall|k: int|
        0 <= k && k + 3 <= line.len() ==> #[trigger] line.subrange(k, k + 3) != " — "@)
        && "- "@.is_prefix_of(line) {
        let rest = line.skip(2);
        text::law_before_first(rest, " — "@);
        if let Some(name) = text::before_first(rest, " — "@) {
            let k = name.len() as int;
            let at = k + 2;
            assert(rest.subrange(k, k + 3) =~= line.subrange(at, at + 3));
        }
    }
}

/// With a gateway the directory is made of two: the lines of the built-in
/// directory whose tools are not replaced, and the gateway's own. They stand in
/// one order, none of them twice.
pub proof fn law_gateway_adds_its_directory(
    runtime: ToolRuntimeView,
    catalog: CatalogView,
    line: Seq<char>,
)
    requires
        runtime.hosted_plugins is Some,
    ensures
        exists|all: Seq<Seq<char>>|
            #![trigger text::join(all, "\n"@)]
            {
                let client = runtime.hosted_plugins->0;
                let builtin = text::lines(
                    registry::shape_directory(registry::shape_of(runtime), catalog),
                );
                &&& registry::runtime_directory(runtime, catalog) == text::join(all, "\n"@)
                &&& forall|a: int, b: int|
                    0 <= a < b < all.len() ==> order::text_lt(#[trigger] all[a], #[trigger] all[b])
                &&& all.contains(line) <==> text::lines(client.directory).contains(line) || (
                builtin.contains(line) && !client.replaced.contains(registry::name_in_line(line)))
            },
{
    let client = runtime.hosted_plugins->0;
    let builtin = text::lines(registry::shape_directory(registry::shape_of(runtime), catalog));
    let kept = registry::unreplaced_lines(builtin, client.replaced);
    let own = text::lines(client.directory);
    let all = order::ordered_set(kept + own);
    order::lemma_ordered_set(kept + own);
    laws::lemma_unreplaced_lines(builtin, client.replaced, line);
    assert(all.contains(line) <==> (kept + own).contains(line));
    assert((kept + own).contains(line) <==> kept.contains(line) || own.contains(line)) by {
        if kept.contains(line) {
            let k = choose|k: int| 0 <= k < kept.len() && kept[k] == line;
            assert((kept + own)[k] == line);
        }
        if own.contains(line) {
            let k = choose|k: int| 0 <= k < own.len() && own[k] == line;
            assert((kept + own)[kept.len() + k] == line);
        }
        if (kept + own).contains(line) {
            let k = choose|k: int| 0 <= k < (kept + own).len() && (kept + own)[k] == line;
            if k < kept.len() {
                assert(kept[k] == line);
            } else {
                assert(own[k - kept.len()] == line);
            }
        }
    }
    assert(registry::runtime_directory(runtime, catalog) == text::join(all, "\n"@));
}

} // verus!
