//! The built-in tools and what decides their visibility.
use vstd::prelude::*;
use vstd::string::*;

use crate::text;
use crate::text::same_text;

verus! {

/// Which turns a built-in tool is for.
#[derive(Clone, Copy, Debug, PartialEq, Eq, Structural)]
pub enum ToolCategory {
    /// In every turn from the start.
    Initial,
    /// On request.
    Requestable,
    /// From the start for the cortex, on request for subagents.
    CortexOnly,
    /// The built-in browser.
    BrowserBuiltin,
    /// Where there are actors.
    Actor,
    /// For subagents.
    ActorSubagent,
    /// Where Telegram is attached.
    Transport,
    /// Where a client is attached, and Telegram is not.
    TransportClient,
    /// Where a knowledge graph is configured.
    KnowledgeGraph,
    /// Identity and vault.
    AgentId,
    /// The vault-sealed browser.
    AgentIdBrowser,
}

/// How a built-in tool runs.
#[derive(Clone, Copy, Debug, PartialEq, Eq, Structural)]
pub enum ToolExecution {
    Sync,
    Async,
}

/// A built-in tool.
#[derive(Debug)]
pub struct ToolDef {
    pub name: String,
    pub description: String,
    pub category: ToolCategory,
    pub execution: ToolExecution,
}

/// What a [`ToolDef`] holds.
pub struct ToolDefView {
    pub name: Seq<char>,
    pub description: Seq<char>,
    pub category: ToolCategory,
    pub execution: ToolExecution,
}

impl View for ToolDef {
    type V = ToolDefView;

    open spec fn view(&self) -> ToolDefView {
        ToolDefView {
            name: self.name@,
            description: self.description@,
            category: self.category,
            execution: self.execution,
        }
    }
}

/// What the host has installed and configured.
#[derive(Clone, Copy, Debug, PartialEq, Eq, Structural)]
pub struct HostCapabilities {
    /// Identity and vault tools are installed.
    pub vault_tools: bool,
    /// The vault-sealed browser is installed.
    pub browser_tools: bool,
    /// A knowledge graph is configured.
    pub knowledge_graph: bool,
}

/// The built-in tools and the host they run on.
#[derive(Debug)]
pub struct Catalog {
    pub defs: Vec<ToolDef>,
    pub host: HostCapabilities,
}

/// What a [`Catalog`] holds.
pub struct CatalogView {
    pub defs: Seq<ToolDefView>,
    pub host: HostCapabilities,
}

impl View for Catalog {
    type V = CatalogView;

    open spec fn view(&self) -> CatalogView {
        CatalogView { defs: text::views(self.defs@), host: self.host }
    }
}

/// The first tool with this name, if there is one.
pub open spec fn def_named(defs: Seq<ToolDefView>, name: Seq<char>) -> Option<ToolDefView>
    decreases defs.len(),
{
    if defs.len() == 0 {
        None
    } else if defs[0].name == name {
        Some(defs[0])
    } else {
        def_named(defs.drop_first(), name)
    }
}

/// A tool that is found by a name has that name, and is in the catalog.
pub proof fn lemma_def_named(defs: Seq<ToolDefView>, name: Seq<char>)
    ensures
        def_named(defs, name) matches Some(def) ==> def.name == name && defs.contains(def),
        def_named(defs, name) is None ==> forall|i: int|
            0 <= i < defs.len() ==> (#[trigger] defs[i]).name != name,
    decreases defs.len(),
{
    if defs.len() > 0 {
        let rest = defs.drop_first();
        lemma_def_named(rest, name);
        if let Some(def) = def_named(defs, name) {
            if defs[0].name != name {
                let i = choose|i: int| 0 <= i < rest.len() && rest[i] == def;
                assert(defs[i + 1] == def);
            } else {
                assert(defs[0] == def);
            }
        } else {
            assert forall|i: int| 0 <= i < defs.len() implies (#[trigger] defs[i]).name != name by {
                if i > 0 {
                    assert(rest[i - 1] == defs[i]);
                }
            }
        }
    }
}

impl Catalog {
    /// The first tool with this name, if there is one.
    pub fn find_def(&self, name: &str) -> (r: Option<&ToolDef>)
        ensures
            match r {
                Some(def) => def_named(self@.defs, name@) == Some(def@),
                None => def_named(self@.defs, name@) is None,
            },
    {
        let ghost all = self@.defs;
        let mut i: usize = 0;
        assert(all.skip(0) =~= all);
        while i < self.defs.len()
            invariant
                i <= self.defs.len(),
                all == self@.defs,
                def_named(all, name@) == def_named(all.skip(i as int), name@),
            decreases self.defs.len() - i,
        {
            assert(all.skip(i as int)[0] == self.defs@[i as int]@);
            if same_text(self.defs[i].name.as_str(), name) {
                return Some(&self.defs[i]);
            }
            assert(all.skip(i as int).drop_first() =~= all.skip(i + 1));
            i = i + 1;
        }
        None
    }
}

/// A name finds the first tool of the catalog that carries it.
pub proof fn law_first_def_is_found(defs: Seq<ToolDefView>, name: Seq<char>, i: int)
    requires
        0 <= i < defs.len(),
        defs[i].name == name,
        forall|k: int| 0 <= k < i ==> (#[trigger] defs[k]).name != name,
    ensures
        def_named(defs, name) == Some(defs[i]),
    decreases i,
{
    if i > 0 {
        let rest = defs.drop_first();
        assert(defs[0].name != name);
        assert forall|k: int| 0 <= k < i - 1 implies (#[trigger] rest[k]).name != name by {
            assert(rest[k] == defs[k + 1]);
        }
        law_first_def_is_found(rest, name, i - 1);
    }
}

/// A name finds nothing exactly where no tool of the catalog carries it.
pub proof fn law_missing_def_is_not_found(defs: Seq<ToolDefView>, name: Seq<char>)
    ensures
        def_named(defs, name) is None <==> forall|k: int|
            0 <= k < defs.len() ==> (#[trigger] defs[k]).name != name,
    decreases defs.len(),
{
    if defs.len() > 0 {
        let rest = defs.drop_first();
        law_missing_def_is_not_found(rest, name);
        if def_named(defs, name) is None {
            assert forall|k: int| 0 <= k < defs.len() implies (#[trigger] defs[k]).name
                != name by {
                if k > 0 {
                    assert(rest[k - 1] == defs[k]);
                }
            }
        } else if defs[0].name != name {
            let k = choose|k: int| 0 <= k < rest.len() && (#[trigger] rest[k]).name == name;
            assert(defs[k + 1].name == name);
        }
    }
}

} // verus!
