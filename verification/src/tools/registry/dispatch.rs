//! What becomes of a tool call. The library decides; the host performs.
use vstd::prelude::*;
use vstd::string::*;

use crate::text;
use crate::text::around;
use crate::text::trim;
use crate::tools::registry;
use crate::tools::registry::ToolRegistry;
use crate::tools::registry::ToolRuntimeView;
use crate::tools::spec;
use crate::tools::spec::CatalogView;
use crate::tools::spec::ToolExecution;

verus! {

/// What to do about a tool call.
#[derive(Debug)]
pub enum ToolCall {
    /// Nothing is run; this is the answer.
    Reply(String),
    /// The remote tool of this name is invoked through the gateway.
    Invoke { name: String, call_id: Option<String> },
    /// The built-in tool of this name is run.
    Run { name: String, execution: ToolExecution },
}

/// What a [`ToolCall`] holds.
pub enum ToolCallView {
    Reply(Seq<char>),
    Invoke { name: Seq<char>, call_id: Option<Seq<char>> },
    Run { name: Seq<char>, execution: ToolExecution },
}

impl View for ToolCall {
    type V = ToolCallView;

    open spec fn view(&self) -> ToolCallView {
        match *self {
            ToolCall::Reply(answer) => ToolCallView::Reply(answer@),
            ToolCall::Invoke { name, call_id } => ToolCallView::Invoke {
                name: name@,
                call_id: text::opt_view(call_id),
            },
            ToolCall::Run { name, execution } => ToolCallView::Run { name: name@, execution },
        }
    }
}

/// The answer where a replacement is gone: never the local tool.
pub open spec fn no_fallback(name: Seq<char>) -> Seq<char> {
    "Error: hosted replacement for tool '"@ + name
        + "' is unavailable; local fallback is disabled."@
}

/// The answer where no tool has the name.
pub open spec fn unknown_tool(name: Seq<char>) -> Seq<char> {
    "Unknown tool: "@ + name
}

/// The answer where the policy does not admit the tool.
pub open spec fn refused(name: Seq<char>) -> Seq<char> {
    "Error: tool '"@ + name + "' is disabled by the active capability policy."@
}

/// The answer where a remote tool is called synchronously.
pub open spec fn remote_needs_async(name: Seq<char>) -> Seq<char> {
    "Error: hosted plugin tool '"@ + name + "' requires async tool execution."@
}

/// The answer where an asynchronous built-in tool is called synchronously.
pub open spec fn needs_async(name: Seq<char>) -> Seq<char> {
    "Error: tool '"@ + name + "' requires async tool execution."@
}

/// What becomes of a call of a tool that no gateway advertises. `name` has no
/// white space around it.
pub open spec fn local_call(
    runtime: ToolRuntimeView,
    catalog: CatalogView,
    name: Seq<char>,
) -> ToolCallView {
    if registry::is_replaced(runtime, name) {
        ToolCallView::Reply(no_fallback(name))
    } else {
        match spec::def_named(catalog.defs, name) {
            None => ToolCallView::Reply(unknown_tool(name)),
            Some(def) => if registry::allows(runtime.policy, def.name, catalog.defs) {
                ToolCallView::Run { name: def.name, execution: def.execution }
            } else {
                ToolCallView::Reply(refused(name))
            },
        }
    }
}

/// What becomes of an asynchronous call.
pub open spec fn async_call(
    runtime: ToolRuntimeView,
    catalog: CatalogView,
    name: Seq<char>,
    call_id: Option<Seq<char>>,
) -> ToolCallView {
    let name = text::trimmed(name);
    if registry::remote_tool(runtime, name) is Some {
        ToolCallView::Invoke { name, call_id }
    } else {
        local_call(runtime, catalog, name)
    }
}

/// What becomes of a synchronous call: as an asynchronous one, but that what
/// would have to wait is refused.
pub open spec fn sync_call(
    runtime: ToolRuntimeView,
    catalog: CatalogView,
    name: Seq<char>,
) -> ToolCallView {
    let name = text::trimmed(name);
    if registry::remote_tool(runtime, name) is Some {
        ToolCallView::Reply(remote_needs_async(name))
    } else {
        match local_call(runtime, catalog, name) {
            ToolCallView::Run { name: _, execution: ToolExecution::Async } => ToolCallView::Reply(
                needs_async(name),
            ),
            other => other,
        }
    }
}

impl<'a> ToolRegistry<'a> {
    /// What becomes of an asynchronous call without a call id.
    pub fn execute_async(&self, name: &str) -> (r: ToolCall)
        ensures
            r@ == async_call(self.runtime@, self.catalog@, name@, None),
    {
        self.execute_async_with_call_id(name, None)
    }

    /// What becomes of an asynchronous call.
    pub fn execute_async_with_call_id(&self, name: &str, call_id: Option<String>) -> (r: ToolCall)
        ensures
            r@ == async_call(self.runtime@, self.catalog@, name@, text::opt_view(call_id)),
    {
        let name = trim(name);
        if self.has_remote(name) {
            return ToolCall::Invoke { name: name.to_owned(), call_id };
        }
        self.call_local(name)
    }

    /// What becomes of a synchronous call.
    pub fn execute(&self, name: &str) -> (r: ToolCall)
        ensures
            r@ == sync_call(self.runtime@, self.catalog@, name@),
    {
        let name = trim(name);
        if self.has_remote(name) {
            return ToolCall::Reply(
                around("Error: hosted plugin tool '", name, "' requires async tool execution."),
            );
        }
        match self.call_local(name) {
            ToolCall::Run { name: _, execution: ToolExecution::Async } => ToolCall::Reply(
                around("Error: tool '", name, "' requires async tool execution."),
            ),
            other => other,
        }
    }

    /// What becomes of a call of a tool that no gateway advertises.
    fn call_local(&self, name: &str) -> (r: ToolCall)
        ensures
            r@ == local_call(self.runtime@, self.catalog@, name@),
    {
        if self.replaces(name) {
            return ToolCall::Reply(
                around(
                    "Error: hosted replacement for tool '",
                    name,
                    "' is unavailable; local fallback is disabled.",
                ),
            );
        }
        match self.catalog.find_def(name) {
            None => {
                let mut answer = "Unknown tool: ".to_owned();
                answer.append(name);
                ToolCall::Reply(answer)
            },
            Some(def) => if self.policy_allows(def.name.as_str()) {
                ToolCall::Run {
                    name: def.name.as_str().to_owned(),
                    execution: def.execution,
                }
            } else {
                ToolCall::Reply(
                    around(
                        "Error: tool '",
                        name,
                        "' is disabled by the active capability policy.",
                    ),
                )
            },
        }
    }
}

} // verus!
