//! Remote tools that the hosted plugin gateway advertises, as of the last
//! refresh of its catalog.
use vstd::prelude::*;
use vstd::string::*;

use crate::text;
use crate::text::same_text;

verus! {

/// How a remote tool is offered.
#[derive(Clone, Copy, Debug, PartialEq, Eq, Structural)]
pub enum RemoteToolExposure {
    /// From the start of a turn.
    Initial,
    /// On request.
    Requestable,
}

/// A remote tool.
#[derive(Debug)]
pub struct RemoteTool {
    pub name: String,
    pub description: String,
    pub exposure: RemoteToolExposure,
    /// The other tools of its family.
    pub siblings: Vec<String>,
}

/// What a [`RemoteTool`] holds.
pub struct RemoteToolView {
    pub name: Seq<char>,
    pub description: Seq<char>,
    pub exposure: RemoteToolExposure,
    pub siblings: Seq<Seq<char>>,
}

impl View for RemoteTool {
    type V = RemoteToolView;

    open spec fn view(&self) -> RemoteToolView {
        RemoteToolView {
            name: self.name@,
            description: self.description@,
            exposure: self.exposure,
            siblings: text::views(self.siblings@),
        }
    }
}

impl Clone for RemoteTool {
    fn clone(&self) -> (r: RemoteTool)
        ensures
            r@ == self@,
    {
        let siblings = self.siblings.clone();
        assert(text::views(siblings@) =~= text::views(self.siblings@));
        RemoteTool {
            name: self.name.clone(),
            description: self.description.clone(),
            exposure: self.exposure,
            siblings,
        }
    }
}

/// What the gateway advertises.
#[derive(Debug)]
pub struct HostedPluginClient {
    pub tools: Vec<RemoteTool>,
    /// The names of the built-in tools that the gateway replaces.
    pub replaced: Vec<String>,
    /// One line for each tool that is offered on request.
    pub directory: String,
}

/// What a [`HostedPluginClient`] holds.
pub struct PluginsView {
    pub tools: Seq<RemoteToolView>,
    pub replaced: Seq<Seq<char>>,
    pub directory: Seq<char>,
}

impl View for HostedPluginClient {
    type V = PluginsView;

    open spec fn view(&self) -> PluginsView {
        PluginsView {
            tools: text::views(self.tools@),
            replaced: text::views(self.replaced@),
            directory: self.directory@,
        }
    }
}

impl Clone for HostedPluginClient {
    fn clone(&self) -> (r: HostedPluginClient)
        ensures
            r@ == self@,
    {
        let tools = self.tools.clone();
        let replaced = self.replaced.clone();
        assert(text::views(tools@) =~= text::views(self.tools@));
        assert(text::views(replaced@) =~= text::views(self.replaced@));
        HostedPluginClient { tools, replaced, directory: self.directory.clone() }
    }
}

/// The first remote tool with this name, if there is one.
pub open spec fn remote_named(tools: Seq<RemoteToolView>, name: Seq<char>) -> Option<
    RemoteToolView,
>
    decreases tools.len(),
{
    if tools.len() == 0 {
        None
    } else if tools[0].name == name {
        Some(tools[0])
    } else {
        remote_named(tools.drop_first(), name)
    }
}

/// Whether the texts hold this one.
pub fn holds_text(texts: &Vec<String>, wanted: &str) -> (r: bool)
    ensures
        r == text::views(texts@).contains(wanted@),
{
    let ghost all = text::views(texts@);
    let mut i: usize = 0;
    while i < texts.len()
        invariant
            i <= texts.len(),
            all == text::views(texts@),
            forall|k: int| 0 <= k < i ==> all[k] != wanted@,
        decreases texts.len() - i,
    {
        assert(all[i as int] == texts@[i as int]@);
        if same_text(texts[i].as_str(), wanted) {
            return true;
        }
        i = i + 1;
    }
    false
}

impl HostedPluginClient {
    /// The first remote tool with this name, if there is one.
    pub fn tool(&self, name: &str) -> (r: Option<&RemoteTool>)
        ensures
            match r {
                Some(tool) => remote_named(self@.tools, name@) == Some(tool@),
                None => remote_named(self@.tools, name@) is None,
            },
    {
        let ghost all = self@.tools;
        let mut i: usize = 0;
        assert(all.skip(0) =~= all);
        while i < self.tools.len()
            invariant
                i <= self.tools.len(),
                all == self@.tools,
                remote_named(all, name@) == remote_named(all.skip(i as int), name@),
            decreases self.tools.len() - i,
        {
            assert(all.skip(i as int)[0] == self.tools@[i as int]@);
            if same_text(self.tools[i].name.as_str(), name) {
                return Some(&self.tools[i]);
            }
            assert(all.skip(i as int).drop_first() =~= all.skip(i + 1));
            i = i + 1;
        }
        None
    }

    /// Whether the gateway replaces the built-in tool with this name.
    pub fn replaces_builtin(&self, name: &str) -> (r: bool)
        ensures
            r == self@.replaced.contains(name@),
    {
        holds_text(&self.replaced, name)
    }
}

/// A name finds the first remote tool that carries it.
pub proof fn law_first_remote_is_found(tools: Seq<RemoteToolView>, name: Seq<char>, i: int)
    requires
        0 <= i < tools.len(),
        tools[i].name == name,
        forall|k: int| 0 <= k < i ==> (#[trigger] tools[k]).name != name,
    ensures
        remote_named(tools, name) == Some(tools[i]),
    decreases i,
{
    if i > 0 {
        let rest = tools.drop_first();
        assert(tools[0].name != name);
        assert forall|k: int| 0 <= k < i - 1 implies (#[trigger] rest[k]).name != name by {
            assert(rest[k] == tools[k + 1]);
        }
        law_first_remote_is_found(rest, name, i - 1);
    }
}

/// A name finds nothing exactly where no remote tool carries it.
pub proof fn law_missing_remote_is_not_found(tools: Seq<RemoteToolView>, name: Seq<char>)
    ensures
        remote_named(tools, name) is None <==> forall|k: int|
            0 <= k < tools.len() ==> (#[trigger] tools[k]).name != name,
    decreases tools.len(),
{
    if tools.len() > 0 {
        let rest = tools.drop_first();
        law_missing_remote_is_not_found(rest, name);
        if remote_named(tools, name) is None {
            assert forall|k: int| 0 <= k < tools.len() implies (#[trigger] tools[k]).name
                != name by {
                if k > 0 {
                    assert(rest[k - 1] == tools[k]);
                }
            }
        } else if tools[0].name != name {
            let k = choose|k: int| 0 <= k < rest.len() && (#[trigger] rest[k]).name == name;
            assert(tools[k + 1].name == name);
        }
    }
}

} // verus!
