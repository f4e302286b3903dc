use vstd::prelude::*;
use time::OffsetDateTime;

verus! {

/// Everything the sidebar and the graph need to know about a repository.
#[derive(Clone, Debug)]
pub struct RepoView {
    /// Working directory the write operations run in.
    pub path: String,
    pub name: String,
    pub head: HeadState,
    pub branches: Vec<Branch>,
    pub remotes: Vec<Remote>,
    pub tags: Vec<Tag>,
    pub stashes: Vec<Stash>,
}

#[derive(Clone, Debug)]
pub enum HeadState {
    Branch { name: String },
    Detached { oid: String },
    Unborn,
}

#[derive(Clone, Debug)]
pub struct Branch {
    pub name: String,
    pub current: bool,
    pub upstream: Option<String>,
    pub ahead: u32,
    pub behind: u32,
    pub tip_oid: String,
}

#[derive(Clone, Debug)]
pub struct Remote {
    pub name: String,
    pub url: String,
    pub branches: Vec<RemoteBranch>,
    pub last_fetched: Option<OffsetDateTime>,
}

/// Tracking branch for a remote — name like "origin/main" plus the tip oid
/// of the local mirror (refs/remotes/origin/main).
#[derive(Clone, Debug)]
pub struct RemoteBranch {
    pub name: String,
    pub tip_oid: String,
}

#[derive(Clone, Debug)]
pub struct Tag {
    pub name: String,
    pub oid: String,
    pub annotated: bool,
    pub date: OffsetDateTime,
}

#[derive(Clone, Debug)]
pub struct Stash {
    pub idx: u32,
    pub message: String,
    pub date: OffsetDateTime,
    pub on_branch: String,
}

} // verus!
