//! The tiling of a tab: a root pane and the splits that were made from it.
use vstd::prelude::*;

verus! {

/// The hub-local id of a pane.
///
/// Ids are minted in blocks of [`PANE_BLOCK`], so that whoever owns a block can
/// number its panes without asking anyone else.
pub type PaneId = u128;

/// How many pane ids a block holds.
pub const PANE_BLOCK: u128 = 0x1_0000_0000_0000_0000;

/// The first id of a block.
pub open spec fn block_start(block: u64) -> int {
    block * PANE_BLOCK
}

/// The first id of a block.
pub fn first_pane_of(block: u64) -> (r: PaneId)
    ensures
        r == block_start(block),
        r + PANE_BLOCK <= u128::MAX + 1,
{
    assert(block * PANE_BLOCK <= u64::MAX * PANE_BLOCK);
    block as u128 * PANE_BLOCK
}

/// Ids of different blocks are different.
pub proof fn law_blocks_are_disjoint(block1: u64, block2: u64, offset1: int, offset2: int)
    requires
        0 <= offset1 < PANE_BLOCK,
        0 <= offset2 < PANE_BLOCK,
        block_start(block1) + offset1 == block_start(block2) + offset2,
    ensures
        block1 == block2,
        offset1 == offset2,
{
}

/// The way in which a split lays out its two halves.
#[derive(Debug, Clone, Copy, PartialEq, Eq, Structural)]
pub enum Direction {
    Horizontal,
    Vertical,
}

/// One split: the pane that was divided and the pane that came of it.
#[derive(Debug, Clone, Copy, PartialEq, Eq, Structural)]
pub struct Split {
    pub from: PaneId,
    pub direction: Direction,
    pub pane: PaneId,
}

/// A tiling.
#[derive(Debug)]
pub struct TileLayout {
    root: PaneId,
    splits: Vec<Split>,
    focused: PaneId,
}

/// A tiling: its root, the splits in the order they were made, and the pane
/// that has the focus.
#[verifier::ext_equal]
pub struct LayoutView {
    pub root: PaneId,
    pub splits: Seq<Split>,
    pub focused: PaneId,
}

impl View for TileLayout {
    type V = LayoutView;

    closed spec fn view(&self) -> LayoutView {
        LayoutView { root: self.root, splits: self.splits@, focused: self.focused }
    }
}

impl TileLayout {
    /// One pane, which has the focus.
    pub fn new(root: PaneId) -> (r: TileLayout)
        ensures
            r@ == (LayoutView { root, splits: Seq::empty(), focused: root }),
    {
        TileLayout { root, splits: Vec::new(), focused: root }
    }

    /// Divides the focused pane; the new pane gets the focus.
    pub fn split_focused(&mut self, direction: Direction, pane: PaneId)
        ensures
            final(self)@ == (LayoutView {
                root: old(self)@.root,
                splits: old(self)@.splits.push(
                    Split { from: old(self)@.focused, direction, pane },
                ),
                focused: pane,
            }),
    {
        self.splits.push(Split { from: self.focused, direction, pane });
        self.focused = pane;
    }

    /// The pane that has the focus.
    pub fn focused(&self) -> (r: PaneId)
        ensures
            r == self@.focused,
    {
        self.focused
    }

    /// The pane that all splits started from.
    pub fn root(&self) -> (r: PaneId)
        ensures
            r == self@.root,
    {
        self.root
    }
}

} // verus!
