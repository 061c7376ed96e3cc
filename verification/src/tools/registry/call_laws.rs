//! What becomes of a tool call, case by case.
use vstd::prelude::*;

use crate::text;
use crate::tools::registry;
use crate::tools::registry::ToolRuntimeView;
use crate::tools::registry::dispatch;
use crate::tools::registry::dispatch::ToolCallView;
use crate::tools::spec;
use crate::tools::spec::CatalogView;
use crate::tools::spec::ToolExecution;

verus! {

/// A remote tool is invoked through the gateway, under its name without the
/// white space around it and with the id of the call; whatever the catalog
/// holds under that name does not count. A synchronous call is told to wait.
pub proof fn law_remote_tools_are_invoked(
    runtime: ToolRuntimeView,
    catalog: CatalogView,
    name: Seq<char>,
    call_id: Option<Seq<char>>,
)
    requires
        registry::remote_tool(runtime, text::trimmed(name)) is Some,
    ensures
        dispatch::async_call(runtime, catalog, name, call_id) == (ToolCallView::Invoke {
            name: text::trimmed(name),
            call_id,
        }),
        dispatch::sync_call(runtime, catalog, name) == ToolCallView::Reply(
            "Error: hosted plugin tool '"@ + text::trimmed(name)
                + "' requires async tool execution."@,
        ),
{
}

/// A tool that the gateway replaces but does not advertise is not run locally,
/// and the model is told why.
pub proof fn law_gone_replacement_is_told(
    runtime: ToolRuntimeView,
    catalog: CatalogView,
    name: Seq<char>,
    call_id: Option<Seq<char>>,
)
    requires
        registry::remote_tool(runtime, text::trimmed(name)) is None,
        runtime.hosted_plugins matches Some(client) && client.replaced.contains(
            text::trimmed(name),
        ),
    ensures
        ({
            let told = ToolCallView::Reply(
                "Error: hosted replacement for tool '"@ + text::trimmed(name)
                    + "' is unavailable; local fallback is disabled."@,
            );
            &&& dispatch::async_call(runtime, catalog, name, call_id) == told
            &&& dispatch::sync_call(runtime, catalog, name) == told
        }),
{
}

/// Where neither a gateway nor the catalog has a tool of the name, the model is
/// told that it is unknown.
pub proof fn law_unknown_tools_are_told(
    runtime: ToolRuntimeView,
    catalog: CatalogView,
    name: Seq<char>,
    call_id: Option<Seq<char>>,
)
    requires
        registry::remote_tool(runtime, text::trimmed(name)) is None,
        !(runtime.hosted_plugins matches Some(client) && client.replaced.contains(
            text::trimmed(name),
        )),
        forall|i: int|
            0 <= i < catalog.defs.len() ==> (#[trigger] catalog.defs[i]).name != text::trimmed(
                name,
            ),
    ensures
        ({
            let told = ToolCallView::Reply("Unknown tool: "@ + text::trimmed(name));
            &&& dispatch::async_call(runtime, catalog, name, call_id) == told
            &&& dispatch::sync_call(runtime, catalog, name) == told
        }),
{
    spec::law_missing_def_is_not_found(catalog.defs, text::trimmed(name));
}

/// A built-in tool that no gateway has taken over is run exactly where the
/// policy admits it: the first one in the catalog under the name, in its own
/// way of running. Where the policy does not admit it, the model is told so; a
/// synchronous call of one that runs asynchronously is told to wait.
pub proof fn law_builtin_tools_are_run(
    runtime: ToolRuntimeView,
    catalog: CatalogView,
    name: Seq<char>,
    call_id: Option<Seq<char>>,
    i: int,
)
    requires
        registry::remote_tool(runtime, text::trimmed(name)) is None,
        !(runtime.hosted_plugins matches Some(client) && client.replaced.contains(
            text::trimmed(name),
        )),
        0 <= i < catalog.defs.len(),
        catalog.defs[i].name == text::trimmed(name),
        forall|k: int| 0 <= k < i ==> (#[trigger] catalog.defs[k]).name != text::trimmed(name),
    ensures
        ({
            let wanted = text::trimmed(name);
            let how = catalog.defs[i].execution;
            let admitted = registry::allows(runtime.policy, wanted, catalog.defs);
            let told = ToolCallView::Reply(
                "Error: tool '"@ + wanted + "' is disabled by the active capability policy."@,
            );
            let waits = ToolCallView::Reply(
                "Error: tool '"@ + wanted + "' requires async tool execution."@,
            );
            let runs = ToolCallView::Run { name: wanted, execution: how };
            &&& admitted ==> dispatch::async_call(runtime, catalog, name, call_id) == runs
            &&& !admitted ==> dispatch::async_call(runtime, catalog, name, call_id) == told
            &&& admitted && how == ToolExecution::Sync ==> dispatch::sync_call(
                runtime,
                catalog,
                name,
            ) == runs
            &&& admitted && how == ToolExecution::Async ==> dispatch::sync_call(
                runtime,
                catalog,
                name,
            ) == waits
            &&& !admitted ==> dispatch::sync_call(runtime, catalog, name) == told
        }),
{
    spec::law_first_def_is_found(catalog.defs, text::trimmed(name), i);
}

} // verus!
