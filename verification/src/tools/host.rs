//! What a turn is given by the host it runs on.
use vstd::prelude::*;
use vstd::string::*;

verus! {

/// Names an object that the host keeps: a store, a transport, an observer.
#[derive(Clone, Copy, Debug, PartialEq, Eq, Structural)]
pub struct HostHandle {
    pub id: u64,
}

/// The file tools of a turn. Sandboxed ones are confined to the workspace.
#[derive(Debug)]
pub struct FileTools {
    pub workspace_dir: String,
    pub sandboxed: bool,
}

impl Clone for FileTools {
    fn clone(&self) -> (r: FileTools)
        ensures
            r.workspace_dir@ == self.workspace_dir@,
            r.sandboxed == self.sandboxed,
    {
        FileTools { workspace_dir: self.workspace_dir.clone(), sandboxed: self.sandboxed }
    }
}

/// The image tools of a turn. Sandboxed ones are confined to the workspace.
#[derive(Debug)]
pub struct ImageTools {
    pub workspace_dir: String,
    pub sandboxed: bool,
}

impl Clone for ImageTools {
    fn clone(&self) -> (r: ImageTools)
        ensures
            r.workspace_dir@ == self.workspace_dir@,
            r.sandboxed == self.sandboxed,
    {
        ImageTools { workspace_dir: self.workspace_dir.clone(), sandboxed: self.sandboxed }
    }
}

/// The web tools of a turn.
#[derive(Debug)]
pub struct WebTools {
    pub cache_dir: String,
}

impl Clone for WebTools {
    fn clone(&self) -> (r: WebTools)
        ensures
            r.cache_dir@ == self.cache_dir@,
    {
        WebTools { cache_dir: self.cache_dir.clone() }
    }
}

/// The browser tools of a turn. Hosted ones share the host's browser.
#[derive(Debug)]
pub struct BrowserTools {
    pub cache_dir: String,
    pub hosted: bool,
}

impl Clone for BrowserTools {
    fn clone(&self) -> (r: BrowserTools)
        ensures
            r.cache_dir@ == self.cache_dir@,
            r.hosted == self.hosted,
    {
        BrowserTools { cache_dir: self.cache_dir.clone(), hosted: self.hosted }
    }
}

} // verus!
