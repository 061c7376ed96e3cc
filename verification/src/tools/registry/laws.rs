//! What holds of every turn and every catalog.
use vstd::prelude::*;

use crate::order;
use crate::text;
use crate::tools::hosted_plugins;
use crate::tools::hosted_plugins::RemoteToolExposure;
use crate::tools::hosted_plugins::RemoteToolView;
use crate::tools::registry;
use crate::tools::registry::ToolContextShape;
use crate::tools::registry::ToolPolicy;
use crate::tools::registry::ToolRuntimeView;
use crate::tools::registry::ToolSummaryView;
use crate::tools::registry::dispatch;
use crate::tools::registry::dispatch::ToolCallView;
use crate::tools::spec;
use crate::tools::spec::CatalogView;
use crate::tools::spec::ToolCategory;
use crate::tools::spec::ToolDefView;

verus! {

/// Whether no name stands twice in a catalog.
pub open spec fn names_apart(catalog: CatalogView) -> bool {
    forall|i: int, j: int|
        0 <= i < j < catalog.defs.len() ==> (#[trigger] catalog.defs[i]).name != (
        #[trigger] catalog.defs[j]).name
}

/// Whether a catalog is one that the lookup by name can serve in full: no
/// name stands twice, and none has white space around it.
pub open spec fn well_named(catalog: CatalogView) -> bool {
    &&& names_apart(catalog)
    &&& forall|i: int|
        0 <= i < catalog.defs.len() ==> text::trimmed((#[trigger] catalog.defs[i]).name)
            == catalog.defs[i].name
}

/// The full policy admits every tool.
pub proof fn law_full_admits_everything(name: Seq<char>, defs: Seq<ToolDefView>)
    ensures
        registry::allows(ToolPolicy::Full, name, defs),
{
}

/// A tool that is visible is one that the policy admits: the allowlist is
/// enforced while schemas are assembled.
pub proof fn law_visible_is_admitted(
    def: ToolDefView,
    shape: ToolContextShape,
    catalog: CatalogView,
)
    requires
        registry::visible(def, shape, catalog),
    ensures
        registry::allows(shape.policy, def.name, catalog.defs),
{
}

/// A built-in tool that is run is one that the policy admits: the allowlist is
/// enforced again at dispatch, whatever the model asks for by name.
pub proof fn law_run_is_admitted(
    runtime: ToolRuntimeView,
    catalog: CatalogView,
    name: Seq<char>,
    call_id: Option<Seq<char>>,
)
    ensures
        dispatch::async_call(runtime, catalog, name, call_id) matches ToolCallView::Run {
            name: run,
            ..
        } ==> registry::allows(runtime.policy, run, catalog.defs),
        dispatch::sync_call(runtime, catalog, name) matches ToolCallView::Run { name: run, .. }
            ==> registry::allows(runtime.policy, run, catalog.defs),
{
}

/// Under the hosted policy the built-in browser is never offered.
pub proof fn law_hosted_hides_the_builtin_browser(
    def: ToolDefView,
    shape: ToolContextShape,
    catalog: CatalogView,
)
    requires
        shape.policy == ToolPolicy::HostedSafe,
        def.category == ToolCategory::BrowserBuiltin,
    ensures
        !registry::visible(def, shape, catalog),
{
}

/// Under the hosted policy no tool of the `browser_` family is run, unless the
/// catalog holds it as an orchestration tool.
pub proof fn law_hosted_refuses_the_browser_family(
    runtime: ToolRuntimeView,
    catalog: CatalogView,
    name: Seq<char>,
    call_id: Option<Seq<char>>,
)
    requires
        runtime.policy == ToolPolicy::HostedSafe,
        "browser_"@.is_prefix_of(text::trimmed(name)),
        !registry::orchestration_tool(text::trimmed(name), catalog.defs),
    ensures
        !registry::allows(ToolPolicy::HostedSafe, text::trimmed(name), catalog.defs),
        !(dispatch::async_call(runtime, catalog, name, call_id) is Run),
        !(dispatch::sync_call(runtime, catalog, name) is Run),
{
    let wanted = text::trimmed(name);
    spec::lemma_def_named(catalog.defs, wanted);
    reveal_strlit("browser_");
    reveal_strlit("memory_");
    reveal_strlit("archival_");
    reveal_strlit("conversation_");
    reveal_strlit("note_");
    reveal_strlit("todo_");
    reveal_strlit("agent_id_");
    reveal_strlit("vault_");
    reveal_strlit("alien_browser_");
    reveal_strlit("read_file");
    reveal_strlit("write_file");
    reveal_strlit("edit_file");
    reveal_strlit("list_directory");
    reveal_strlit("glob_search");
    reveal_strlit("grep_search");
    reveal_strlit("view_image");
    reveal_strlit("request_tool");
    reveal_strlit("chat_send_message");
    assert(wanted[0] == "browser_"@[0]);
    assert(wanted[0] == 'b');
}

/// Under the hosted policy identity, vault and sealed-browser tools are shown
/// only where there is tenant-private state.
pub proof fn law_hosted_identity_needs_tenant_state(
    def: ToolDefView,
    shape: ToolContextShape,
    catalog: CatalogView,
)
    requires
        shape.policy == ToolPolicy::HostedSafe,
        !shape.has_agent_id_state,
        def.category == ToolCategory::AgentId || def.category == ToolCategory::AgentIdBrowser,
    ensures
        !registry::visible(def, shape, catalog),
{
}

/// A turn is never shown two competing browsers.
pub proof fn law_one_browser(
    builtin: ToolDefView,
    sealed: ToolDefView,
    shape: ToolContextShape,
    catalog: CatalogView,
)
    requires
        builtin.category == ToolCategory::BrowserBuiltin,
        sealed.category == ToolCategory::AgentIdBrowser,
    ensures
        !(registry::visible(builtin, shape, catalog) && registry::visible(sealed, shape, catalog)),
{
}

/// A turn is never shown the egress tools of two transports.
pub proof fn law_one_transport(
    telegram: ToolDefView,
    client: ToolDefView,
    shape: ToolContextShape,
    catalog: CatalogView,
)
    requires
        telegram.category == ToolCategory::Transport,
        client.category == ToolCategory::TransportClient,
    ensures
        !(registry::visible(telegram, shape, catalog) && registry::visible(
            client,
            shape,
            catalog,
        )),
{
}

/// Where a replacement is gone the local tool is neither available nor run.
pub proof fn law_no_local_fallback(
    runtime: ToolRuntimeView,
    catalog: CatalogView,
    name: Seq<char>,
    call_id: Option<Seq<char>>,
)
    requires
        registry::is_replaced(runtime, text::trimmed(name)),
        registry::remote_tool(runtime, text::trimmed(name)) is None,
    ensures
        !registry::is_available(runtime, catalog, name),
        dispatch::async_call(runtime, catalog, name, call_id) == ToolCallView::Reply(
            dispatch::no_fallback(text::trimmed(name)),
        ),
        dispatch::sync_call(runtime, catalog, name) == ToolCallView::Reply(
            dispatch::no_fallback(text::trimmed(name)),
        ),
{
}

/// An asynchronous call of an available tool is carried out: it is invoked or
/// run, under its own name.
pub proof fn law_available_is_carried_out(
    runtime: ToolRuntimeView,
    catalog: CatalogView,
    name: Seq<char>,
    call_id: Option<Seq<char>>,
)
    requires
        registry::is_available(runtime, catalog, name),
    ensures
        match dispatch::async_call(runtime, catalog, name, call_id) {
            ToolCallView::Reply(_) => false,
            ToolCallView::Invoke { name: run, call_id: id } => run == text::trimmed(name) && id
                == call_id,
            ToolCallView::Run { name: run, .. } => run == text::trimmed(name),
        },
{
    spec::lemma_def_named(catalog.defs, text::trimmed(name));
}

/// White space around a name does not count.
pub proof fn law_names_are_trimmed(
    runtime: ToolRuntimeView,
    catalog: CatalogView,
    name: Seq<char>,
    call_id: Option<Seq<char>>,
)
    ensures
        registry::is_available(runtime, catalog, text::trimmed(name)) == registry::is_available(
            runtime,
            catalog,
            name,
        ),
        registry::siblings_of(runtime, catalog, text::trimmed(name)) == registry::siblings_of(
            runtime,
            catalog,
            name,
        ),
        dispatch::async_call(runtime, catalog, text::trimmed(name), call_id)
            == dispatch::async_call(runtime, catalog, name, call_id),
        dispatch::sync_call(runtime, catalog, text::trimmed(name)) == dispatch::sync_call(
            runtime,
            catalog,
            name,
        ),
{
    text::lemma_trimmed_twice(name);
}

proof fn lemma_def_at(catalog: CatalogView, i: int)
    requires
        well_named(catalog),
        0 <= i < catalog.defs.len(),
    ensures
        spec::def_named(catalog.defs, catalog.defs[i].name) == Some(catalog.defs[i]),
{
    let name = catalog.defs[i].name;
    spec::lemma_def_named(catalog.defs, name);
    match spec::def_named(catalog.defs, name) {
        Some(def) => {
            let k = choose|k: int| 0 <= k < catalog.defs.len() && catalog.defs[k] == def;
            assert(catalog.defs[k].name == name);
        },
        None => {},
    }
}

proof fn lemma_local_requestable(
    defs: Seq<ToolDefView>,
    runtime: ToolRuntimeView,
    catalog: CatalogView,
    name: Seq<char>,
)
    ensures
        registry::local_requestable(defs, runtime, catalog).contains(name) <==> exists|i: int|
            0 <= i < defs.len() && (#[trigger] defs[i]).name == name && registry::requestable(
                defs[i],
                registry::shape_of(runtime),
                catalog,
            ) && !registry::is_replaced(runtime, name),
    decreases defs.len(),
{
    let names = registry::local_requestable(defs, runtime, catalog);
    if defs.len() > 0 {
        let before = registry::local_requestable(defs.drop_last(), runtime, catalog);
        lemma_local_requestable(defs.drop_last(), runtime, catalog, name);
        if names.contains(name) {
            let k = choose|k: int| 0 <= k < names.len() && names[k] == name;
            if k < before.len() {
                assert(before[k] == name);
                let i = choose|i: int|
                    0 <= i < defs.drop_last().len() && (#[trigger] defs.drop_last()[i]).name == name
                        && registry::requestable(
                        defs.drop_last()[i],
                        registry::shape_of(runtime),
                        catalog,
                    ) && !registry::is_replaced(runtime, name);
                assert(defs[i].name == name);
            } else {
                assert(defs[defs.len() - 1].name == name);
            }
        }
        if exists|i: int|
            0 <= i < defs.len() && (#[trigger] defs[i]).name == name && registry::requestable(
                defs[i],
                registry::shape_of(runtime),
                catalog,
            ) && !registry::is_replaced(runtime, name) {
            let i = choose|i: int|
                0 <= i < defs.len() && (#[trigger] defs[i]).name == name && registry::requestable(
                    defs[i],
                    registry::shape_of(runtime),
                    catalog,
                ) && !registry::is_replaced(runtime, name);
            if i < defs.len() - 1 {
                assert(defs.drop_last()[i].name == name);
                let k = choose|k: int| 0 <= k < before.len() && before[k] == name;
                assert(names[k] == name);
            } else {
                assert(names[before.len() as int] == name);
            }
        }
    }
}

proof fn lemma_remote_requestable(tools: Seq<RemoteToolView>, name: Seq<char>)
    ensures
        registry::remote_requestable(tools).contains(name) <==> exists|i: int|
            0 <= i < tools.len() && (#[trigger] tools[i]).name == name && tools[i].exposure
                == RemoteToolExposure::Requestable,
    decreases tools.len(),
{
    let names = registry::remote_requestable(tools);
    if tools.len() > 0 {
        let rest = tools.drop_last();
        let before = registry::remote_requestable(rest);
        lemma_remote_requestable(rest, name);
        if names.contains(name) {
            let k = choose|k: int| 0 <= k < names.len() && names[k] == name;
            if k < before.len() {
                assert(before[k] == name);
                let i = choose|i: int|
                    0 <= i < rest.len() && (#[trigger] rest[i]).name == name && rest[i].exposure
                        == RemoteToolExposure::Requestable;
                assert(tools[i].name == name);
            } else {
                assert(tools[tools.len() - 1].name == name);
            }
        }
        if exists|i: int|
            0 <= i < tools.len() && (#[trigger] tools[i]).name == name && tools[i].exposure
                == RemoteToolExposure::Requestable {
            let i = choose|i: int|
                0 <= i < tools.len() && (#[trigger] tools[i]).name == name && tools[i].exposure
                    == RemoteToolExposure::Requestable;
            if i < rest.len() {
                assert(rest[i].name == name);
                let k = choose|k: int| 0 <= k < before.len() && before[k] == name;
                assert(names[k] == name);
            } else {
                assert(names[before.len() as int] == name);
            }
        }
    }
}

proof fn lemma_remote_found(tools: Seq<RemoteToolView>, i: int)
    requires
        0 <= i < tools.len(),
    ensures
        hosted_plugins::remote_named(tools, tools[i].name) is Some,
    decreases tools.len(),
{
    if tools[0].name != tools[i].name {
        assert(tools.drop_first()[i - 1] == tools[i]);
        lemma_remote_found(tools.drop_first(), i - 1);
    }
}

/// Whether the gateway offers a remote tool of this name on request.
pub open spec fn offered_on_request(runtime: ToolRuntimeView, name: Seq<char>) -> bool {
    match runtime.hosted_plugins {
        Some(client) => exists|i: int|
            0 <= i < client.tools.len() && (#[trigger] client.tools[i]).name == name
                && client.tools[i].exposure == RemoteToolExposure::Requestable,
        None => false,
    }
}

/// Whether the catalog holds a tool of this name that a turn can ask for.
pub open spec fn held_on_request(
    runtime: ToolRuntimeView,
    catalog: CatalogView,
    name: Seq<char>,
) -> bool {
    exists|i: int|
        0 <= i < catalog.defs.len() && (#[trigger] catalog.defs[i]).name == name
            && registry::requestable(catalog.defs[i], registry::shape_of(runtime), catalog)
}

/// The names that can be asked for stand in order, and none stands twice.
pub proof fn law_requestable_names_are_ordered(runtime: ToolRuntimeView, catalog: CatalogView)
    ensures
        order::strictly_ordered(
            order::ordered_set(registry::requestable_names(runtime, catalog)),
        ),
{
    order::lemma_ordered_set(registry::requestable_names(runtime, catalog));
}

/// A name can be asked for exactly where the gateway offers a remote tool of
/// that name on request, or the catalog holds one that the turn can ask for
/// and that the gateway does not replace.
pub proof fn law_requestable_names_are_complete(
    runtime: ToolRuntimeView,
    catalog: CatalogView,
    name: Seq<char>,
)
    ensures
        order::ordered_set(registry::requestable_names(runtime, catalog)).contains(name) <==> (
        offered_on_request(runtime, name) || (held_on_request(runtime, catalog, name)
            && !registry::is_replaced(runtime, name))),
{
    let names = registry::requestable_names(runtime, catalog);
    let local = registry::local_requestable(catalog.defs, runtime, catalog);
    let remote = match runtime.hosted_plugins {
        Some(client) => registry::remote_requestable(client.tools),
        None => Seq::empty(),
    };
    order::lemma_ordered_set(names);
    assert(order::ordered_set(names).contains(name) <==> names.contains(name));
    assert(names == local + remote);
    assert(names.contains(name) <==> local.contains(name) || remote.contains(name)) by {
        if local.contains(name) {
            let k = choose|k: int| 0 <= k < local.len() && local[k] == name;
            assert(names[k] == name);
        }
        if remote.contains(name) {
            let k = choose|k: int| 0 <= k < remote.len() && remote[k] == name;
            assert(names[local.len() + k] == name);
        }
        if names.contains(name) {
            let k = choose|k: int| 0 <= k < names.len() && names[k] == name;
            if k < local.len() {
                assert(local[k] == name);
            } else {
                assert(remote[k - local.len()] == name);
            }
        }
    }
    lemma_local_requestable(catalog.defs, runtime, catalog, name);
    if let Some(client) = runtime.hosted_plugins {
        lemma_remote_requestable(client.tools, name);
    }
}

/// What can be asked for can be had.
pub proof fn law_requestable_is_available(
    runtime: ToolRuntimeView,
    catalog: CatalogView,
    name: Seq<char>,
)
    requires
        well_named(catalog),
        text::trimmed(name) == name,
        order::ordered_set(registry::requestable_names(runtime, catalog)).contains(name),
    ensures
        registry::is_available(runtime, catalog, name),
{
    law_requestable_names_are_complete(runtime, catalog, name);
    if offered_on_request(runtime, name) {
        let tools = runtime.hosted_plugins->0.tools;
        let i = choose|i: int|
            0 <= i < tools.len() && (#[trigger] tools[i]).name == name && tools[i].exposure
                == RemoteToolExposure::Requestable;
        lemma_remote_found(tools, i);
    } else {
        let i = choose|i: int|
            0 <= i < catalog.defs.len() && (#[trigger] catalog.defs[i]).name == name
                && registry::requestable(catalog.defs[i], registry::shape_of(runtime), catalog);
        lemma_def_at(catalog, i);
    }
}

proof fn lemma_local_tools(
    defs: Seq<ToolDefView>,
    runtime: ToolRuntimeView,
    catalog: CatalogView,
    k: int,
)
    requires
        0 <= k < registry::local_tools(defs, runtime, catalog).len(),
    ensures
        ({
            let name = registry::local_tools(defs, runtime, catalog)[k].name;
            !registry::is_replaced(runtime, name) && exists|i: int|
                0 <= i < defs.len() && (#[trigger] defs[i]).name == name && registry::visible(
                    defs[i],
                    registry::shape_of(runtime),
                    catalog,
                )
        }),
    decreases defs.len(),
{
    let rest = defs.drop_last();
    let before = registry::local_tools(rest, runtime, catalog);
    let name = registry::local_tools(defs, runtime, catalog)[k].name;
    if k < before.len() {
        lemma_local_tools(rest, runtime, catalog, k);
        let i = choose|i: int|
            0 <= i < rest.len() && (#[trigger] rest[i]).name == name && registry::visible(
                rest[i],
                registry::shape_of(runtime),
                catalog,
            );
        assert(defs[i].name == name);
    } else {
        assert(defs[defs.len() - 1].name == name);
    }
}

/// Every tool that is listed for a turn can be had by it: what the model is
/// shown is never refused.
pub proof fn law_listed_is_available(
    runtime: ToolRuntimeView,
    catalog: CatalogView,
    tool: ToolSummaryView,
)
    requires
        well_named(catalog),
        text::trimmed(tool.name) == tool.name,
        registry::all_tools(runtime, catalog).contains(tool),
    ensures
        registry::is_available(runtime, catalog, tool.name),
{
    let local = registry::local_tools(catalog.defs, runtime, catalog);
    let all = registry::all_tools(runtime, catalog);
    let k = choose|k: int| 0 <= k < all.len() && all[k] == tool;
    if k < local.len() {
        lemma_local_tools(catalog.defs, runtime, catalog, k);
        let i = choose|i: int|
            0 <= i < catalog.defs.len() && (#[trigger] catalog.defs[i]).name == tool.name
                && registry::visible(catalog.defs[i], registry::shape_of(runtime), catalog);
        lemma_def_at(catalog, i);
    } else {
        let tools = runtime.hosted_plugins->0.tools;
        assert(registry::remote_tools(runtime)[k - local.len()] == tool);
        lemma_remote_found(tools, k - local.len());
    }
}

/// A tool is loaded exactly where it is listed and active.
pub proof fn law_loaded_is_listed_and_active(
    tools: Seq<ToolSummaryView>,
    runtime: ToolRuntimeView,
    catalog: CatalogView,
    active: Seq<Seq<char>>,
    tool: ToolSummaryView,
)
    ensures
        registry::active_tools_of(tools, runtime, catalog, active).contains(tool) <==> (
        tools.contains(tool) && registry::is_active(runtime, catalog, active, tool.name)),
    decreases tools.len(),
{
    let loaded = registry::active_tools_of(tools, runtime, catalog, active);
    if tools.len() > 0 {
        let rest = tools.drop_last();
        let before = registry::active_tools_of(rest, runtime, catalog, active);
        law_loaded_is_listed_and_active(rest, runtime, catalog, active, tool);
        if loaded.contains(tool) {
            let k = choose|k: int| 0 <= k < loaded.len() && loaded[k] == tool;
            if k < before.len() {
                assert(before[k] == tool);
                let i = choose|i: int| 0 <= i < rest.len() && rest[i] == tool;
                assert(tools[i] == tool);
            } else {
                assert(tools[tools.len() - 1] == tool);
            }
        }
        if tools.contains(tool) && registry::is_active(runtime, catalog, active, tool.name) {
            let i = choose|i: int| 0 <= i < tools.len() && tools[i] == tool;
            if i < rest.len() {
                assert(rest[i] == tool);
                let k = choose|k: int| 0 <= k < before.len() && before[k] == tool;
                assert(loaded[k] == tool);
            } else {
                assert(loaded[before.len() as int] == tool);
            }
        }
    }
}

proof fn lemma_family_names(
    defs: Seq<ToolDefView>,
    category: ToolCategory,
    but: Seq<char>,
    shape: ToolContextShape,
    catalog: CatalogView,
    name: Seq<char>,
)
    ensures
        registry::family_names(defs, category, but, shape, catalog).contains(name) <==> (name
            != but && exists|i: int|
            0 <= i < defs.len() && (#[trigger] defs[i]).name == name && defs[i].category
                == category && registry::visible(defs[i], shape, catalog)),
    decreases defs.len(),
{
    let names = registry::family_names(defs, category, but, shape, catalog);
    if defs.len() > 0 {
        let rest = defs.drop_last();
        let before = registry::family_names(rest, category, but, shape, catalog);
        lemma_family_names(rest, category, but, shape, catalog, name);
        if names.contains(name) {
            let k = choose|k: int| 0 <= k < names.len() && names[k] == name;
            if k < before.len() {
                assert(before[k] == name);
                let i = choose|i: int|
                    0 <= i < rest.len() && (#[trigger] rest[i]).name == name && rest[i].category
                        == category && registry::visible(rest[i], shape, catalog);
                assert(defs[i].name == name);
            } else {
                assert(defs[defs.len() - 1].name == name);
            }
        }
        if name != but && exists|i: int|
            0 <= i < defs.len() && (#[trigger] defs[i]).name == name && defs[i].category
                == category && registry::visible(defs[i], shape, catalog) {
            let i = choose|i: int|
                0 <= i < defs.len() && (#[trigger] defs[i]).name == name && defs[i].category
                    == category && registry::visible(defs[i], shape, catalog);
            if i < rest.len() {
                assert(rest[i].name == name);
                let k = choose|k: int| 0 <= k < before.len() && before[k] == name;
                assert(names[k] == name);
            } else {
                assert(names[before.len() as int] == name);
            }
        }
    }
}

/// Asking for one built-in tool of a family brings the whole of it: the
/// siblings of the tool at `i` hold every other visible tool of its category,
/// and nothing else.
pub proof fn law_siblings_complete_the_family(
    runtime: ToolRuntimeView,
    catalog: CatalogView,
    i: int,
    j: int,
)
    requires
        well_named(catalog),
        0 <= i < catalog.defs.len(),
        0 <= j < catalog.defs.len(),
        registry::is_family(catalog.defs[i].category),
        registry::remote_tool(runtime, catalog.defs[i].name) is None,
    ensures
        registry::siblings_of(runtime, catalog, catalog.defs[i].name).contains(
            catalog.defs[j].name,
        ) <==> (i != j && catalog.defs[j].category == catalog.defs[i].category
            && registry::visible(catalog.defs[j], registry::shape_of(runtime), catalog)),
{
    let shape = registry::shape_of(runtime);
    let one = catalog.defs[i];
    let name = catalog.defs[j].name;
    lemma_def_at(catalog, i);
    let family = registry::family_names(catalog.defs, one.category, one.name, shape, catalog);
    order::lemma_ordered_set(family);
    assert(order::ordered_set(family).contains(name) <==> family.contains(name));
    lemma_family_names(catalog.defs, one.category, one.name, shape, catalog, name);
    if family.contains(name) {
        let k = choose|k: int|
            0 <= k < catalog.defs.len() && (#[trigger] catalog.defs[k]).name == name
                && catalog.defs[k].category == one.category && registry::visible(
                catalog.defs[k],
                shape,
                catalog,
            );
        assert(k == j);
    }
}

/// Siblings are siblings of each other.
pub proof fn law_siblings_are_mutual(
    runtime: ToolRuntimeView,
    catalog: CatalogView,
    i: int,
    j: int,
)
    requires
        well_named(catalog),
        0 <= i < catalog.defs.len(),
        0 <= j < catalog.defs.len(),
        registry::is_family(catalog.defs[i].category),
        registry::remote_tool(runtime, catalog.defs[i].name) is None,
        registry::remote_tool(runtime, catalog.defs[j].name) is None,
        registry::visible(catalog.defs[i], registry::shape_of(runtime), catalog),
        registry::siblings_of(runtime, catalog, catalog.defs[i].name).contains(
            catalog.defs[j].name,
        ),
    ensures
        registry::siblings_of(runtime, catalog, catalog.defs[j].name).contains(
            catalog.defs[i].name,
        ),
{
    law_siblings_complete_the_family(runtime, catalog, i, j);
    law_siblings_complete_the_family(runtime, catalog, j, i);
}

proof fn lemma_requestable_lines(
    defs: Seq<ToolDefView>,
    shape: ToolContextShape,
    catalog: CatalogView,
    line: Seq<char>,
)
    ensures
        registry::requestable_lines(defs, shape, catalog).contains(line) <==> exists|i: int|
            0 <= i < defs.len() && registry::directory_line(#[trigger] defs[i]) == line
                && registry::requestable(defs[i], shape, catalog),
    decreases defs.len(),
{
    let lines = registry::requestable_lines(defs, shape, catalog);
    if defs.len() > 0 {
        let rest = defs.drop_last();
        let before = registry::requestable_lines(rest, shape, catalog);
        lemma_requestable_lines(rest, shape, catalog, line);
        if lines.contains(line) {
            let k = choose|k: int| 0 <= k < lines.len() && lines[k] == line;
            if k < before.len() {
                assert(before[k] == line);
                let i = choose|i: int|
                    0 <= i < rest.len() && registry::directory_line(#[trigger] rest[i]) == line
                        && registry::requestable(rest[i], shape, catalog);
                assert(registry::directory_line(defs[i]) == line);
            } else {
                assert(registry::directory_line(defs[defs.len() - 1]) == line);
            }
        }
        if exists|i: int|
            0 <= i < defs.len() && registry::directory_line(#[trigger] defs[i]) == line
                && registry::requestable(defs[i], shape, catalog) {
            let i = choose|i: int|
                0 <= i < defs.len() && registry::directory_line(#[trigger] defs[i]) == line
                    && registry::requestable(defs[i], shape, catalog);
            if i < rest.len() {
                assert(registry::directory_line(rest[i]) == line);
                let k = choose|k: int| 0 <= k < before.len() && before[k] == line;
                assert(lines[k] == line);
            } else {
                assert(lines[before.len() as int] == line);
            }
        }
    }
}

/// The directory lists exactly the built-in tools that can be asked for, one
/// line each and in order.
pub proof fn law_directory_lists_the_requestable(
    shape: ToolContextShape,
    catalog: CatalogView,
    line: Seq<char>,
)
    ensures
        ({
            let lines = order::ordered_set(
                registry::requestable_lines(catalog.defs, shape, catalog),
            );
            &&& registry::shape_directory(shape, catalog) == text::join(lines, "\n"@)
            &&& order::strictly_ordered(lines)
            &&& lines.contains(line) <==> exists|i: int|
                0 <= i < catalog.defs.len() && registry::directory_line(#[trigger] catalog.defs[i])
                    == line && registry::requestable(catalog.defs[i], shape, catalog)
        }),
{
    let all = registry::requestable_lines(catalog.defs, shape, catalog);
    order::lemma_ordered_set(all);
    assert(order::ordered_set(all).contains(line) <==> all.contains(line));
    lemma_requestable_lines(catalog.defs, shape, catalog, line);
}

/// Whether the first dash behind a name in its directory line is the one that
/// ends it: the name holds no dash between spaces, nor ends in a space and a
/// dash.
pub open spec fn ends_at_the_dash(name: Seq<char>) -> bool {
    &&& text::before_first(name, " — "@) is None
    &&& !" —"@.is_suffix_of(name)
}

proof fn lemma_before_dash(name: Seq<char>, rest: Seq<char>)
    requires
        ends_at_the_dash(name),
    ensures
        text::before_first(name + (" — "@ + rest), " — "@) == Some(name),
    decreases name.len(),
{
    reveal_strlit(" — ");
    reveal_strlit(" —");
    let mark = " — "@;
    let whole = name + (mark + rest);
    if name.len() == 0 {
        assert(whole =~= mark + rest);
        assert(mark.is_prefix_of(whole)) by {
            assert(whole.take(3) =~= mark);
        }
        assert(name =~= Seq::empty());
    } else {
        let behind = name.drop_first();
        if mark.is_prefix_of(whole) {
            let start = whole.subrange(0, 3);
            assert(mark[0] == start[0] && mark[1] == start[1] && mark[2] == start[2]);
            if name.len() == 1 {
                assert(whole[1] == mark[0]);
            } else if name.len() == 2 {
                assert(name.subrange(0, 2) =~= " —"@);
            } else {
                assert(name.subrange(0, 3) =~= mark);
            }
        }
        assert(whole.drop_first() =~= behind + (mark + rest));
        assert(!" —"@.is_suffix_of(behind)) by {
            if " —"@.is_suffix_of(behind) {
                assert(behind.subrange(behind.len() - 2, behind.len() as int) =~= name.subrange(
                    name.len() - 2,
                    name.len() as int,
                ));
            }
        }
        lemma_before_dash(behind, rest);
        assert(seq![whole[0]] + behind =~= name);
    }
}

/// A directory line gives back the name of its tool, as long as the first dash
/// behind the name is the one that ends it.
pub proof fn law_line_gives_back_the_name(def: ToolDefView)
    requires
        ends_at_the_dash(def.name),
    ensures
        registry::name_in_line(registry::directory_line(def)) == def.name,
{
    reveal_strlit("- ");
    let line = registry::directory_line(def);
    assert(line.skip(2) =~= def.name + (" — "@ + def.description));
    assert("- "@.is_prefix_of(line)) by {
        assert(line.take(2) =~= "- "@);
    }
    lemma_before_dash(def.name, def.description);
}

/// The directory of a turn with a gateway holds no built-in line of a tool
/// that the gateway replaces.
pub proof fn law_directory_drops_the_replaced(
    lines: Seq<Seq<char>>,
    replaced: Seq<Seq<char>>,
    def: ToolDefView,
)
    requires
        ends_at_the_dash(def.name),
        replaced.contains(def.name),
    ensures
        !registry::unreplaced_lines(lines, replaced).contains(registry::directory_line(def)),
    decreases lines.len(),
{
    law_line_gives_back_the_name(def);
    let line = registry::directory_line(def);
    let kept = registry::unreplaced_lines(lines, replaced);
    if lines.len() > 0 {
        law_directory_drops_the_replaced(lines.drop_last(), replaced, def);
        let before = registry::unreplaced_lines(lines.drop_last(), replaced);
        if kept.contains(line) {
            let k = choose|k: int| 0 <= k < kept.len() && kept[k] == line;
            if k < before.len() {
                assert(before[k] == line);
            }
        }
    }
}

/// Whether the directory line of a tool is one line.
pub open spec fn has_plain_line(def: ToolDefView) -> bool {
    &&& !registry::directory_line(def).contains('\n')
    &&& registry::directory_line(def).last() != '\r'
}

/// The lines of the directory of a turn, in order.
pub open spec fn listed_lines(runtime: ToolRuntimeView, catalog: CatalogView) -> Seq<Seq<char>> {
    let builtin = order::ordered_set(
        registry::requestable_lines(catalog.defs, registry::shape_of(runtime), catalog),
    );
    match runtime.hosted_plugins {
        None => builtin,
        Some(client) => order::ordered_set(
            registry::unreplaced_lines(builtin, client.replaced) + text::lines(client.directory),
        ),
    }
}

/// A line is kept exactly where it is there and its tool is not replaced.
pub proof fn lemma_unreplaced_lines(
    lines: Seq<Seq<char>>,
    replaced: Seq<Seq<char>>,
    line: Seq<char>,
)
    ensures
        registry::unreplaced_lines(lines, replaced).contains(line) <==> (lines.contains(line)
            && !replaced.contains(registry::name_in_line(line))),
    decreases lines.len(),
{
    let kept = registry::unreplaced_lines(lines, replaced);
    if lines.len() > 0 {
        let rest = lines.drop_last();
        let before = registry::unreplaced_lines(rest, replaced);
        lemma_unreplaced_lines(rest, replaced, line);
        if kept.contains(line) {
            let k = choose|k: int| 0 <= k < kept.len() && kept[k] == line;
            if k < before.len() {
                assert(before[k] == line);
                let i = choose|i: int| 0 <= i < rest.len() && rest[i] == line;
                assert(lines[i] == line);
            } else {
                assert(lines[lines.len() - 1] == line);
            }
        }
        if lines.contains(line) && !replaced.contains(registry::name_in_line(line)) {
            let i = choose|i: int| 0 <= i < lines.len() && lines[i] == line;
            if i < rest.len() {
                assert(rest[i] == line);
                let k = choose|k: int| 0 <= k < before.len() && before[k] == line;
                assert(kept[k] == line);
            } else {
                assert(kept[before.len() as int] == line);
            }
        }
    }
}

/// The lines of the directory of a shape are those that went into it.
proof fn lemma_lines_of_the_directory(shape: ToolContextShape, catalog: CatalogView)
    requires
        forall|i: int| 0 <= i < catalog.defs.len() ==> has_plain_line(#[trigger] catalog.defs[i]),
    ensures
        text::lines(registry::shape_directory(shape, catalog)) == order::ordered_set(
            registry::requestable_lines(catalog.defs, shape, catalog),
        ),
{
    reveal_strlit("\n");
    reveal_strlit("- ");
    assert("\n"@ =~= seq!['\n']);
    let own = registry::requestable_lines(catalog.defs, shape, catalog);
    let builtin = order::ordered_set(own);
    order::lemma_ordered_set(own);
    assert forall|k: int| 0 <= k < builtin.len() implies !(#[trigger] builtin[k]).contains('\n')
        && builtin[k].len() > 0 && builtin[k].last() != '\r' by {
        assert(builtin.contains(builtin[k]));
        assert(own.contains(builtin[k]));
        lemma_requestable_lines(catalog.defs, shape, catalog, builtin[k]);
        let i = choose|i: int|
            0 <= i < catalog.defs.len() && registry::directory_line(#[trigger] catalog.defs[i])
                == builtin[k] && registry::requestable(catalog.defs[i], shape, catalog);
        assert(has_plain_line(catalog.defs[i]));
    }
    text::law_lines_undo_join(builtin);
}

/// The directory of a turn lists exactly what the turn can ask for, in order:
/// the built-in tools that no gateway replaces, and the gateway's own lines.
pub proof fn law_directory_of_a_turn(
    runtime: ToolRuntimeView,
    catalog: CatalogView,
    line: Seq<char>,
)
    requires
        forall|i: int| 0 <= i < catalog.defs.len() ==> has_plain_line(#[trigger] catalog.defs[i]),
    ensures
        registry::runtime_directory(runtime, catalog) == text::join(
            listed_lines(runtime, catalog),
            "\n"@,
        ),
        order::strictly_ordered(listed_lines(runtime, catalog)),
        listed_lines(runtime, catalog).contains(line) <==> {
            ||| runtime.hosted_plugins matches Some(client) && text::lines(
                client.directory,
            ).contains(line)
            ||| !registry::is_replaced(runtime, registry::name_in_line(line)) && exists|i: int|
                0 <= i < catalog.defs.len() && registry::directory_line(#[trigger] catalog.defs[i])
                    == line && registry::requestable(
                    catalog.defs[i],
                    registry::shape_of(runtime),
                    catalog,
                )
        },
{
    let shape = registry::shape_of(runtime);
    let own = registry::requestable_lines(catalog.defs, shape, catalog);
    let builtin = order::ordered_set(own);
    law_directory_lists_the_requestable(shape, catalog, line);
    order::lemma_ordered_set(own);
    if let Some(client) = runtime.hosted_plugins {
        lemma_lines_of_the_directory(shape, catalog);
        let kept = registry::unreplaced_lines(builtin, client.replaced);
        let remote = text::lines(client.directory);
        order::lemma_ordered_set(kept + remote);
        assert(listed_lines(runtime, catalog).contains(line) <==> (kept + remote).contains(line));
        lemma_unreplaced_lines(builtin, client.replaced, line);
        assert((kept + remote).contains(line) <==> kept.contains(line) || remote.contains(line))
            by {
            if kept.contains(line) {
                let k = choose|k: int| 0 <= k < kept.len() && kept[k] == line;
                assert((kept + remote)[k] == line);
            }
            if remote.contains(line) {
                let k = choose|k: int| 0 <= k < remote.len() && remote[k] == line;
                assert((kept + remote)[kept.len() + k] == line);
            }
            if (kept + remote).contains(line) {
                let k = choose|k: int|
                    0 <= k < (kept + remote).len() && (kept + remote)[k] == line;
                if k < kept.len() {
                    assert(kept[k] == line);
                } else {
                    assert(remote[k - kept.len()] == line);
                }
            }
        }
    }
}

/// Whether `line` is the directory line of the tool at `i`, and the turn can
/// ask for that tool.
pub open spec fn lists_tool(
    runtime: ToolRuntimeView,
    catalog: CatalogView,
    line: Seq<char>,
    i: int,
) -> bool {
    &&& 0 <= i < catalog.defs.len()
    &&& registry::directory_line(catalog.defs[i]) == line
    &&& registry::requestable(catalog.defs[i], registry::shape_of(runtime), catalog)
}

/// Whether `line` is the directory line of a tool that the turn can ask for.
pub open spec fn lists_a_tool(
    runtime: ToolRuntimeView,
    catalog: CatalogView,
    line: Seq<char>,
) -> bool {
    exists|i: int| lists_tool(runtime, catalog, line, i)
}

/// Whether the lines hold that of a tool of this name that the turn can ask
/// for.
pub open spec fn listed_under(
    runtime: ToolRuntimeView,
    catalog: CatalogView,
    lines: Seq<Seq<char>>,
    name: Seq<char>,
) -> bool {
    exists|i: int|
        0 <= i < catalog.defs.len() && (#[trigger] catalog.defs[i]).name == name && lists_tool(
            runtime,
            catalog,
            registry::directory_line(catalog.defs[i]),
            i,
        ) && lines.contains(registry::directory_line(catalog.defs[i]))
}

/// Without a gateway the directory and the list of names agree, whatever the
/// tools are called: every line of the directory is that of a tool that can be
/// asked for, and a name can be asked for exactly where a tool of that name is
/// in the directory.
pub proof fn law_directory_and_names_agree(
    runtime: ToolRuntimeView,
    catalog: CatalogView,
    name: Seq<char>,
)
    requires
        runtime.hosted_plugins is None,
    ensures
        ({
            let lines = listed_lines(runtime, catalog);
            let names = order::ordered_set(registry::requestable_names(runtime, catalog));
            &&& registry::runtime_directory(runtime, catalog) == text::join(lines, "\n"@)
            &&& forall|k: int|
                0 <= k < lines.len() ==> lists_a_tool(runtime, catalog, #[trigger] lines[k])
            &&& names.contains(name) <==> listed_under(runtime, catalog, lines, name)
        }),
{
    let shape = registry::shape_of(runtime);
    let own = registry::requestable_lines(catalog.defs, shape, catalog);
    let lines = listed_lines(runtime, catalog);
    let names = order::ordered_set(registry::requestable_names(runtime, catalog));
    order::lemma_ordered_set(own);
    assert forall|k: int| 0 <= k < lines.len() implies lists_a_tool(
        runtime,
        catalog,
        #[trigger] lines[k],
    ) by {
        assert(lines.contains(lines[k]));
        assert(own.contains(lines[k]));
        lemma_requestable_lines(catalog.defs, shape, catalog, lines[k]);
        let i = choose|i: int|
            0 <= i < catalog.defs.len() && registry::directory_line(#[trigger] catalog.defs[i])
                == lines[k] && registry::requestable(catalog.defs[i], shape, catalog);
        assert(lists_tool(runtime, catalog, lines[k], i));
    }
    law_requestable_names_are_complete(runtime, catalog, name);
    if names.contains(name) {
        let i = choose|i: int|
            0 <= i < catalog.defs.len() && (#[trigger] catalog.defs[i]).name == name
                && registry::requestable(catalog.defs[i], shape, catalog);
        let line = registry::directory_line(catalog.defs[i]);
        lemma_requestable_lines(catalog.defs, shape, catalog, line);
        assert(own.contains(line));
        assert(lines.contains(line));
        assert(lists_tool(runtime, catalog, line, i));
    }
}

/// Without a gateway the directory has one line for each tool that can be asked
/// for, the names on its lines are the names that can be asked for, and no name
/// is on two lines. This holds where every line can be told apart from the next
/// and gives back its name.
pub proof fn law_directory_names_the_requestable(
    runtime: ToolRuntimeView,
    catalog: CatalogView,
    name: Seq<char>,
)
    requires
        runtime.hosted_plugins is None,
        names_apart(catalog),
        forall|i: int|
            0 <= i < catalog.defs.len() ==> has_plain_line(#[trigger] catalog.defs[i])
                && ends_at_the_dash(catalog.defs[i].name),
    ensures
        ({
            let lines = text::lines(registry::runtime_directory(runtime, catalog));
            let names = order::ordered_set(registry::requestable_names(runtime, catalog));
            &&& lines == listed_lines(runtime, catalog)
            &&& forall|k: int|
                0 <= k < lines.len() ==> lists_a_tool(runtime, catalog, #[trigger] lines[k])
            &&& forall|k: int, i: int|
                0 <= k < lines.len() && #[trigger] lists_tool(runtime, catalog, lines[k], i)
                    ==> registry::name_in_line(lines[k]) == catalog.defs[i].name
            &&& names.contains(name) <==> exists|k: int|
                0 <= k < lines.len() && registry::name_in_line(#[trigger] lines[k]) == name
            &&& forall|k: int, m: int|
                0 <= k < m < lines.len() ==> registry::name_in_line(#[trigger] lines[k])
                    != registry::name_in_line(#[trigger] lines[m])
        }),
{
    let shape = registry::shape_of(runtime);
    let lines = text::lines(registry::runtime_directory(runtime, catalog));
    let names = order::ordered_set(registry::requestable_names(runtime, catalog));
    lemma_lines_of_the_directory(shape, catalog);
    order::lemma_ordered_set(registry::requestable_lines(catalog.defs, shape, catalog));
    law_directory_and_names_agree(runtime, catalog, name);
    assert forall|k: int, i: int|
        0 <= k < lines.len() && #[trigger] lists_tool(runtime, catalog, lines[k], i) implies
        registry::name_in_line(lines[k]) == catalog.defs[i].name by {
        law_line_gives_back_the_name(catalog.defs[i]);
    }
    if names.contains(name) {
        let i = choose|i: int|
            0 <= i < catalog.defs.len() && (#[trigger] catalog.defs[i]).name == name && lists_tool(
                runtime,
                catalog,
                registry::directory_line(catalog.defs[i]),
                i,
            ) && lines.contains(registry::directory_line(catalog.defs[i]));
        let line = registry::directory_line(catalog.defs[i]);
        law_line_gives_back_the_name(catalog.defs[i]);
        let k = choose|k: int| 0 <= k < lines.len() && lines[k] == line;
        assert(registry::name_in_line(lines[k]) == name);
    }
    if exists|k: int| 0 <= k < lines.len() && registry::name_in_line(#[trigger] lines[k]) == name {
        let k = choose|k: int|
            0 <= k < lines.len() && registry::name_in_line(#[trigger] lines[k]) == name;
        assert(lists_a_tool(runtime, catalog, lines[k]));
        let i = choose|i: int| lists_tool(runtime, catalog, lines[k], i);
        assert(catalog.defs[i].name == name);
        assert(lines.contains(lines[k]));
    }
    assert forall|k: int, m: int| 0 <= k < m < lines.len() implies registry::name_in_line(
        #[trigger] lines[k],
    ) != registry::name_in_line(#[trigger] lines[m]) by {
        assert(lists_a_tool(runtime, catalog, lines[k]));
        assert(lists_a_tool(runtime, catalog, lines[m]));
        let i = choose|i: int| lists_tool(runtime, catalog, lines[k], i);
        let j = choose|j: int| lists_tool(runtime, catalog, lines[m], j);
        assert(order::text_lt(lines[k], lines[m]));
        order::lemma_text_lt_total(lines[k], lines[m]);
        if i != j {
            assert(catalog.defs[i].name != catalog.defs[j].name);
        }
    }
}

} // verus!
