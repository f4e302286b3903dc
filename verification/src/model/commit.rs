use vstd::prelude::*;
use time::OffsetDateTime;

verus! {

/// One commit as the history view shows it.
#[derive(Clone, Debug)]
pub struct Commit {
    pub oid: String,
    pub short: String,
    pub subject: String,
    pub body: Option<String>,
    pub author: Author,
    pub committer: Author,
    pub date: OffsetDateTime,
    pub parents: Vec<String>,
    pub refs: Vec<RefChip>,
    /// True iff the commit object carries a signature header.
    pub signed: bool,
}

#[derive(Clone, Debug)]
pub struct Author {
    pub name: String,
    pub email: String,
}

#[derive(Clone, Debug)]
pub enum RefChip {
    Branch { name: String, current: bool },
    Remote { name: String },
    Tag { name: String, annotated: bool },
    Head,
}

/// A ref chip in plain values.
pub enum ChipView {
    Branch(Seq<char>, bool),
    Remote(Seq<char>),
    Tag(Seq<char>, bool),
    Head,
}

pub open spec fn chip_view(c: RefChip) -> ChipView {
    match c {
        RefChip::Branch { name, current } => ChipView::Branch(name@, current),
        RefChip::Remote { name } => ChipView::Remote(name@),
        RefChip::Tag { name, annotated } => ChipView::Tag(name@, annotated),
        RefChip::Head => ChipView::Head,
    }
}

pub open spec fn chips_view(cs: Seq<RefChip>) -> Seq<ChipView> {
    cs.map_values(|c: RefChip| chip_view(c))
}

pub proof fn lemma_chips_view_push(s: Seq<RefChip>, c: RefChip)
    ensures
        chips_view(s.push(c)) == chips_view(s).push(chip_view(c)),
{
    assert(chips_view(s.push(c)) =~= chips_view(s).push(chip_view(c)));
}

/// A copy of a chip.
pub fn copy_chip(c: &RefChip) -> (r: RefChip)
    ensures
        chip_view(r) == chip_view(*c),
{
    match c {
        RefChip::Branch { name, current } => RefChip::Branch { name: name.clone(), current: *current },
        RefChip::Remote { name } => RefChip::Remote { name: name.clone() },
        RefChip::Tag { name, annotated } => RefChip::Tag { name: name.clone(), annotated: *annotated },
        RefChip::Head => RefChip::Head,
    }
}

/// Computed per viewport. Not persisted.
#[derive(Clone, Copy, Debug)]
pub struct LaneAssignment {
    pub column: u8,
    pub lane_color_idx: u8,
    pub is_merge: bool,
}

} // verus!
