use vstd::prelude::*;
use time::OffsetDateTime;

verus! {

/// One entry of the HEAD reflog, newest first.
#[derive(Clone, Debug)]
pub struct ReflogEntry {
    pub idx: u32,
    pub oid: String,
    pub short: String,
    pub action: ReflogAction,
    pub subject: String,
    pub date: OffsetDateTime,
}

#[derive(Clone, Copy, Debug, PartialEq, Eq, Structural)]
pub enum ReflogAction {
    Commit,
    Merge,
    Checkout,
    Rebase,
    Reset,
    Pull,
    Push,
    Clone,
    CherryPick,
    Amend,
    Other,
}

} // verus!
