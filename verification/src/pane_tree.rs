//! The panes of a tab: a binary tree whose leaves each show one session.
//!
//! Splitting a pane puts a second one beside or below it; closing a pane lets its
//! sibling grow into the space it leaves. A tree always has a pane.
use vstd::prelude::*;

verus! {

/// The whole of a split, in parts of it.
pub const WHOLE: u32 = 1_000_000;

/// The share of the first child of a new split.
pub const HALF: u32 = 500_000;

/// Smallest share of a split either of its children may be given. A pane dragged to
/// nothing would take its divider with it and leave no way to drag it back.
pub const MIN_SPLIT_RATIO: u32 = 100_000;

/// How the children of a split lie.
#[derive(Debug, Clone, Copy, PartialEq, Eq, Structural)]
pub enum Axis {
    /// Side by side.
    Horizontal,
    /// One above the other.
    Vertical,
}

/// A pane, or two nodes that share the space of one.
#[derive(Debug)]
pub enum PaneNode {
    Leaf {
        id: u64,
        /// The session the pane shows.
        session: u64,
    },
    Split {
        id: u64,
        axis: Axis,
        /// Share of the first child, in millionths.
        ratio: u32,
        first: Box<PaneNode>,
        second: Box<PaneNode>,
    },
}

impl PaneNode {
    /// The panes from left to right and from top to bottom, each with its session.
    pub open spec fn leaves(self) -> Seq<(u64, u64)>
        decreases self,
    {
        match self {
            PaneNode::Leaf { id, session } => seq![(id, session)],
            PaneNode::Split { first, second, .. } => first.leaves() + second.leaves(),
        }
    }

    /// There is a pane with that id.
    pub open spec fn has(self, pane: u64) -> bool
        decreases self,
    {
        match self {
            PaneNode::Leaf { id, .. } => id == pane,
            PaneNode::Split { first, second, .. } => first.has(pane) || second.has(pane),
        }
    }

    /// There is a split with that id.
    pub open spec fn has_split(self, split: u64) -> bool
        decreases self,
    {
        match self {
            PaneNode::Leaf { .. } => false,
            PaneNode::Split { id, first, second, .. } => id == split || first.has_split(split)
                || second.has_split(split),
        }
    }

    /// The leftmost pane.
    pub open spec fn leftmost(self) -> (u64, u64)
        decreases self,
    {
        match self {
            PaneNode::Leaf { id, session } => (id, session),
            PaneNode::Split { first, .. } => first.leftmost(),
        }
    }

    /// The tree with the first pane of that id sharing its space with another
    /// tree, which comes second.
    pub open spec fn shared(self, pane: u64, split: u64, axis: Axis, other: PaneNode) -> PaneNode
        decreases self,
    {
        match self {
            PaneNode::Leaf { id, .. } => if id == pane {
                PaneNode::Split { id: split, axis, ratio: HALF, first: Box::new(self), second: Box::new(other) }
            } else {
                self
            },
            PaneNode::Split { id, axis: along, ratio, first, second } => if first.has(pane) {
                PaneNode::Split {
                    id,
                    axis: along,
                    ratio,
                    first: Box::new(first.shared(pane, split, axis, other)),
                    second,
                }
            } else {
                PaneNode::Split {
                    id,
                    axis: along,
                    ratio,
                    first,
                    second: Box::new(second.shared(pane, split, axis, other)),
                }
            },
        }
    }

    /// The tree without the first pane of that id, whose sibling grows into its
    /// space. Nothing is left of a lone pane.
    pub open spec fn without(self, pane: u64) -> Option<PaneNode>
        decreases self,
    {
        match self {
            PaneNode::Leaf { id, .. } => if id == pane {
                None
            } else {
                Some(self)
            },
            PaneNode::Split { id, axis, ratio, first, second } => if first.has(pane) {
                match first.without(pane) {
                    None => Some(*second),
                    Some(rest) => Some(PaneNode::Split { id, axis, ratio, first: Box::new(rest), second }),
                }
            } else {
                match second.without(pane) {
                    None => Some(*first),
                    Some(rest) => Some(PaneNode::Split { id, axis, ratio, first, second: Box::new(rest) }),
                }
            },
        }
    }

    /// The tree with the divider of every split of that id moved.
    pub open spec fn divided(self, split: u64, share: u32) -> PaneNode
        decreases self,
    {
        match self {
            PaneNode::Leaf { .. } => self,
            PaneNode::Split { id, axis, ratio, first, second } => PaneNode::Split {
                id,
                axis,
                ratio: if id == split {
                    share
                } else {
                    ratio
                },
                first: Box::new(first.divided(split, share)),
                second: Box::new(second.divided(split, share)),
            },
        }
    }

    /// Every id in the tree lies below `bound`.
    pub open spec fn ids_below(self, bound: u64) -> bool
        decreases self,
    {
        match self {
            PaneNode::Leaf { id, .. } => id < bound,
            PaneNode::Split { id, first, second, .. } => id < bound && first.ids_below(bound)
                && second.ids_below(bound),
        }
    }

    /// No share leaves a child with less than the smallest one.
    pub open spec fn shares_fit(self) -> bool
        decreases self,
    {
        match self {
            PaneNode::Leaf { .. } => true,
            PaneNode::Split { ratio, first, second, .. } => MIN_SPLIT_RATIO <= ratio <= WHOLE - MIN_SPLIT_RATIO
                && first.shares_fit() && second.shares_fit(),
        }
    }

    /// Whether there is a pane with that id.
    fn contains(&self, pane: u64) -> (found: bool)
        ensures
            found == self.has(pane),
        decreases self,
    {
        match self {
            PaneNode::Leaf { id, session: _ } => *id == pane,
            PaneNode::Split { id: _, axis: _, ratio: _, first, second } => first.contains(pane) || second.contains(
                pane,
            ),
        }
    }

    /// Whether there is a split with that id.
    fn contains_split(&self, split: u64) -> (found: bool)
        ensures
            found == self.has_split(split),
        decreases self,
    {
        match self {
            PaneNode::Leaf { .. } => false,
            PaneNode::Split { id, axis: _, ratio: _, first, second } => *id == split || first.contains_split(split)
                || second.contains_split(split),
        }
    }

    /// Adds the panes to a list.
    fn gather(&self, panes: &mut Vec<(u64, u64)>)
        ensures
            final(panes)@ == old(panes)@ + self.leaves(),
        decreases self,
    {
        match self {
            PaneNode::Leaf { id, session } => {
                panes.push((*id, *session));
                assert(panes@ =~= old(panes)@ + self.leaves());
            },
            PaneNode::Split { id: _, axis: _, ratio: _, first, second } => {
                first.gather(panes);
                second.gather(panes);
                assert(panes@ =~= old(panes)@ + self.leaves());
            },
        }
    }

    fn share_space(self, pane: u64, split: u64, axis: Axis, other: PaneNode) -> (node: PaneNode)
        ensures
            node == self.shared(pane, split, axis, other),
        decreases self,
    {
        match self {
            PaneNode::Leaf { id, session } => if id == pane {
                PaneNode::Split {
                    id: split,
                    axis,
                    ratio: HALF,
                    first: Box::new(PaneNode::Leaf { id, session }),
                    second: Box::new(other),
                }
            } else {
                PaneNode::Leaf { id, session }
            },
            PaneNode::Split { id, axis: along, ratio, first, second } => if first.contains(pane) {
                PaneNode::Split {
                    id,
                    axis: along,
                    ratio,
                    first: Box::new((*first).share_space(pane, split, axis, other)),
                    second,
                }
            } else {
                PaneNode::Split {
                    id,
                    axis: along,
                    ratio,
                    first,
                    second: Box::new((*second).share_space(pane, split, axis, other)),
                }
            },
        }
    }

    fn take_out(self, pane: u64) -> (rest: Option<PaneNode>)
        ensures
            rest == self.without(pane),
        decreases self,
    {
        match self {
            PaneNode::Leaf { id, session } => if id == pane {
                None
            } else {
                Some(PaneNode::Leaf { id, session })
            },
            PaneNode::Split { id, axis, ratio, first, second } => if first.contains(pane) {
                match (*first).take_out(pane) {
                    None => Some(*second),
                    Some(rest) => Some(PaneNode::Split { id, axis, ratio, first: Box::new(rest), second }),
                }
            } else {
                match (*second).take_out(pane) {
                    None => Some(*first),
                    Some(rest) => Some(PaneNode::Split { id, axis, ratio, first, second: Box::new(rest) }),
                }
            },
        }
    }

    fn divide(self, split: u64, share: u32) -> (node: PaneNode)
        ensures
            node == self.divided(split, share),
        decreases self,
    {
        match self {
            PaneNode::Leaf { id, session } => PaneNode::Leaf { id, session },
            PaneNode::Split { id, axis, ratio, first, second } => PaneNode::Split {
                id,
                axis,
                ratio: if id == split {
                    share
                } else {
                    ratio
                },
                first: Box::new((*first).divide(split, share)),
                second: Box::new((*second).divide(split, share)),
            },
        }
    }
}

/// Where a pane stands in a list of panes.
pub open spec fn place_of(leaves: Seq<(u64, u64)>, pane: u64) -> Option<int>
    decreases leaves.len(),
{
    if leaves.len() == 0 {
        None
    } else if leaves[0].0 == pane {
        Some(0)
    } else {
        match place_of(leaves.drop_first(), pane) {
            Some(place) => Some(place + 1),
            None => None,
        }
    }
}

/// The panes have ids of their own.
pub open spec fn distinct(leaves: Seq<(u64, u64)>) -> bool {
    forall|i: int, j: int| 0 <= i < j < leaves.len() ==> (#[trigger] leaves[i]).0 != (#[trigger] leaves[j]).0
}

/// The pane after or before another in the order of focus, which goes round.
pub open spec fn neighbour(leaves: Seq<(u64, u64)>, pane: u64, forward: bool) -> Option<u64> {
    match place_of(leaves, pane) {
        Some(place) => Some(
            leaves[if forward {
                if place + 1 == leaves.len() {
                    0
                } else {
                    place + 1
                }
            } else if place == 0 {
                leaves.len() - 1
            } else {
                place - 1
            }].0,
        ),
        None => None,
    }
}

/// Where a pane stands in a list.
fn find_pane(leaves: &Vec<(u64, u64)>, pane: u64) -> (place: Option<usize>)
    ensures
        match place {
            Some(place) => place < leaves@.len() && place_of(leaves@, pane) == Some(place as int)
                && leaves@[place as int].0 == pane,
            None => place_of(leaves@, pane) is None,
        },
{
    let mut i: usize = 0;
    proof {
        assert(leaves@.skip(0) =~= leaves@);
    }
    while i < leaves.len()
        invariant
            i <= leaves@.len(),
            place_of(leaves@, pane) == match place_of(leaves@.skip(i as int), pane) {
                Some(place) => Some(place + i),
                None => None,
            },
        decreases leaves@.len() - i,
    {
        proof {
            assert(leaves@.skip(i as int)[0] == leaves@[i as int]);
            assert(leaves@.skip(i as int).drop_first() =~= leaves@.skip(i + 1));
        }
        if leaves[i].0 == pane {
            return Some(i);
        }
        i += 1;
    }
    None
}

/// A non-empty tree of panes.
#[derive(Debug)]
pub struct PaneTree {
    pub root: PaneNode,
}

/// A share that leaves both children enough.
pub open spec fn fitted(share: u32) -> u32 {
    if share < MIN_SPLIT_RATIO {
        MIN_SPLIT_RATIO
    } else if share > WHOLE - MIN_SPLIT_RATIO {
        (WHOLE - MIN_SPLIT_RATIO) as u32
    } else {
        share
    }
}

impl PaneTree {
    /// The panes in order, each with its session.
    pub open spec fn panes(self) -> Seq<(u64, u64)> {
        self.root.leaves()
    }

    /// A tree of a single pane.
    pub fn single(id: u64, session: u64) -> (tree: PaneTree)
        ensures
            tree.root == (PaneNode::Leaf { id, session }),
            tree.panes() == seq![(id, session)],
    {
        PaneTree { root: PaneNode::Leaf { id, session } }
    }

    /// The panes in order, each with its session.
    pub fn leaves(&self) -> (panes: Vec<(u64, u64)>)
        ensures
            panes@ == self.panes(),
    {
        let mut panes: Vec<(u64, u64)> = Vec::new();
        self.root.gather(&mut panes);
        assert(panes@ =~= self.panes());
        panes
    }

    /// How many panes there are.
    pub fn leaf_count(&self) -> (count: usize)
        ensures
            count == self.panes().len(),
            count >= 1,
    {
        proof {
            lemma_leaves(self.root);
        }
        self.leaves().len()
    }

    /// The first pane.
    pub fn first_leaf(&self) -> (pane: (u64, u64))
        ensures
            pane == self.panes()[0],
    {
        proof {
            lemma_leaves(self.root);
        }
        self.leaves()[0]
    }

    /// Whether there is a pane with that id.
    pub fn contains(&self, pane: u64) -> (found: bool)
        ensures
            found == self.root.has(pane),
    {
        self.root.contains(pane)
    }

    /// The session that a pane shows.
    pub fn get(&self, pane: u64) -> (session: Option<u64>)
        ensures
            session == match place_of(self.panes(), pane) {
                Some(place) => Some(self.panes()[place].1),
                None => None,
            },
            session is Some == self.root.has(pane),
    {
        proof {
            lemma_place(self.root, pane);
        }
        let leaves = self.leaves();
        match find_pane(&leaves, pane) {
            Some(place) => Some(leaves[place].1),
            None => None,
        }
    }

    /// The pane after `pane` in the order of focus, which goes round.
    pub fn next_leaf(&self, pane: u64) -> (next: Option<u64>)
        ensures
            next == neighbour(self.panes(), pane, true),
    {
        let leaves = self.leaves();
        match find_pane(&leaves, pane) {
            Some(place) => Some(
                if place == leaves.len() - 1 {
                    leaves[0].0
                } else {
                    leaves[place + 1].0
                },
            ),
            None => None,
        }
    }

    /// The pane before `pane` in the order of focus, which goes round.
    pub fn prev_leaf(&self, pane: u64) -> (previous: Option<u64>)
        ensures
            previous == neighbour(self.panes(), pane, false),
    {
        let leaves = self.leaves();
        match find_pane(&leaves, pane) {
            Some(place) => Some(
                if place == 0 {
                    leaves[leaves.len() - 1].0
                } else {
                    leaves[place - 1].0
                },
            ),
            None => None,
        }
    }

    /// Splits a pane along `axis`; the new pane comes second. `split` is the id of
    /// the split. Nothing changes when there is no such pane.
    pub fn split(&mut self, pane: u64, axis: Axis, split: u64, id: u64, session: u64) -> (done: bool)
        ensures
            done == old(self).root.has(pane),
            final(self).root == if done {
                old(self).root.shared(pane, split, axis, PaneNode::Leaf { id, session })
            } else {
                old(self).root
            },
    {
        self.merge_subtree(pane, axis, split, PaneTree::single(id, session))
    }

    /// Splits a pane along `axis` and gives the new half to another tree. Nothing
    /// changes when there is no such pane.
    pub fn merge_subtree(&mut self, pane: u64, axis: Axis, split: u64, incoming: PaneTree) -> (done: bool)
        ensures
            done == old(self).root.has(pane),
            final(self).root == if done {
                old(self).root.shared(pane, split, axis, incoming.root)
            } else {
                old(self).root
            },
    {
        if !self.root.contains(pane) {
            return false;
        }
        let mut root = PaneNode::Leaf { id: 0, session: 0 };
        core::mem::swap(&mut root, &mut self.root);
        self.root = root.share_space(pane, split, axis, incoming.root);
        true
    }

    /// Removes a pane and hands out its session. Its sibling grows into the space.
    /// The only pane of a tree stays, and a pane that is not there is not removed.
    pub fn remove(&mut self, pane: u64) -> (session: Option<u64>)
        ensures
            match old(self).root.without(pane) {
                Some(rest) if old(self).root.has(pane) => {
                    &&& final(self).root == rest
                    &&& session == Some(old(self).panes()[place_of(old(self).panes(), pane)->0].1)
                },
                _ => final(self).root == old(self).root && session is None,
            },
    {
        let session = self.get(pane);
        if session.is_none() {
            return None;
        }
        if let PaneNode::Leaf { .. } = &self.root {
            return None;
        }
        proof {
            lemma_without(self.root, pane);
        }
        let mut root = PaneNode::Leaf { id: 0, session: 0 };
        core::mem::swap(&mut root, &mut self.root);
        match root.take_out(pane) {
            Some(rest) => {
                self.root = rest;
                session
            },
            None => None,
        }
    }

    /// Moves the divider of a split, short of either edge. Reports whether there is
    /// such a split.
    pub fn set_ratio(&mut self, split: u64, share: u32) -> (found: bool)
        ensures
            found == old(self).root.has_split(split),
            final(self).root == if found {
                old(self).root.divided(split, fitted(share))
            } else {
                old(self).root
            },
    {
        if !self.root.contains_split(split) {
            return false;
        }
        let fit: u32 = if share < MIN_SPLIT_RATIO {
            MIN_SPLIT_RATIO
        } else if share > WHOLE - MIN_SPLIT_RATIO {
            WHOLE - MIN_SPLIT_RATIO
        } else {
            share
        };
        let mut root = PaneNode::Leaf { id: 0, session: 0 };
        core::mem::swap(&mut root, &mut self.root);
        self.root = root.divide(split, fit);
        true
    }
}

/// A tree has a pane, and begins with its leftmost one.
pub proof fn lemma_leaves(node: PaneNode)
    ensures
        node.leaves().len() >= 1,
        node.leaves()[0] == node.leftmost(),
    decreases node,
{
    match node {
        PaneNode::Leaf { .. } => {},
        PaneNode::Split { first, second, .. } => {
            lemma_leaves(*first);
            lemma_leaves(*second);
        },
    }
}

proof fn lemma_place_add(a: Seq<(u64, u64)>, b: Seq<(u64, u64)>, pane: u64)
    ensures
        place_of(a + b, pane) == match place_of(a, pane) {
            Some(place) => Some(place),
            None => match place_of(b, pane) {
                Some(place) => Some(place + a.len()),
                None => None,
            },
        },
        place_of(a, pane) matches Some(place) ==> 0 <= place < a.len() && a[place].0 == pane,
    decreases a.len(),
{
    if a.len() == 0 {
        assert(a + b =~= b);
    } else {
        assert((a + b).drop_first() =~= a.drop_first() + b);
        lemma_place_add(a.drop_first(), b, pane);
    }
}

/// A pane that is in the tree stands in the list of its panes.
pub proof fn lemma_place(node: PaneNode, pane: u64)
    ensures
        node.has(pane) == (place_of(node.leaves(), pane) is Some),
        place_of(node.leaves(), pane) matches Some(place) ==> 0 <= place < node.leaves().len()
            && node.leaves()[place].0 == pane,
    decreases node,
{
    match node {
        PaneNode::Leaf { id, .. } => {
            reveal_with_fuel(place_of, 2);
        },
        PaneNode::Split { first, second, .. } => {
            lemma_place(*first, pane);
            lemma_place(*second, pane);
            lemma_place_add(first.leaves(), second.leaves(), pane);
        },
    }
}

/// Only a lone pane leaves nothing behind.
pub proof fn lemma_without(node: PaneNode, pane: u64)
    requires
        node.has(pane),
    ensures
        node.without(pane) is None == (node is Leaf),
    decreases node,
{
}

/// The place of a pane in a tree.
pub open spec fn place_in(node: PaneNode, pane: u64) -> int {
    place_of(node.leaves(), pane)->0
}

/// A pane that shares its space is followed by the panes it shares it with; all
/// others keep their places.
pub proof fn sharing_adds_panes_behind(node: PaneNode, pane: u64, split: u64, axis: Axis, other: PaneNode)
    requires
        node.has(pane),
    ensures
        node.shared(pane, split, axis, other).leaves() == node.leaves().take(place_in(node, pane) + 1)
            + other.leaves() + node.leaves().skip(place_in(node, pane) + 1),
    decreases node,
{
    let place = place_in(node, pane);
    let after = node.shared(pane, split, axis, other).leaves();
    lemma_place(node, pane);
    match node {
        PaneNode::Leaf { id, .. } => {
            reveal_with_fuel(place_of, 2);
            reveal_with_fuel(PaneNode::leaves, 2);
            assert(after =~= node.leaves().take(place + 1) + other.leaves() + node.leaves().skip(place + 1));
        },
        PaneNode::Split { first, second, .. } => {
            lemma_place(*first, pane);
            lemma_place(*second, pane);
            lemma_place_add(first.leaves(), second.leaves(), pane);
            if first.has(pane) {
                sharing_adds_panes_behind(*first, pane, split, axis, other);
            } else {
                sharing_adds_panes_behind(*second, pane, split, axis, other);
            }
            assert(after =~= node.leaves().take(place + 1) + other.leaves() + node.leaves().skip(place + 1));
        },
    }
}

/// Removing a pane leaves all others in their order.
#[verifier::spinoff_prover]
#[verifier::rlimit(40)]
pub proof fn removing_keeps_the_others(node: PaneNode, pane: u64)
    requires
        node.has(pane),
        node.without(pane) is Some,
    ensures
        (node.without(pane)->0).leaves() == node.leaves().remove(place_in(node, pane)),
    decreases node,
{
    let place = place_in(node, pane);
    lemma_place(node, pane);
    match node {
        PaneNode::Leaf { .. } => {},
        PaneNode::Split { first, second, .. } => {
            lemma_place(*first, pane);
            lemma_place(*second, pane);
            lemma_place_add(first.leaves(), second.leaves(), pane);
            if first.has(pane) {
                lemma_without(*first, pane);
                match first.without(pane) {
                    None => {
                        assert(first.leaves().len() == 1);
                    },
                    Some(_) => {
                        removing_keeps_the_others(*first, pane);
                    },
                }
            } else {
                lemma_without(*second, pane);
                match second.without(pane) {
                    None => {
                        assert(second.leaves().len() == 1);
                    },
                    Some(_) => {
                        removing_keeps_the_others(*second, pane);
                    },
                }
            }
            assert((node.without(pane)->0).leaves() =~= node.leaves().remove(place));
        },
    }
}

/// Closing the pane that a split opened gives back the tree there was.
pub proof fn closing_undoes_splitting(node: PaneNode, pane: u64, split: u64, axis: Axis, id: u64, session: u64)
    requires
        node.has(pane),
        !node.has(id),
    ensures
        node.shared(pane, split, axis, PaneNode::Leaf { id, session }).without(id) == Some(node),
    decreases node,
{
    reveal_with_fuel(PaneNode::without, 2);
    reveal_with_fuel(PaneNode::has, 2);
    match node {
        PaneNode::Leaf { .. } => {},
        PaneNode::Split { first, second, .. } => {
            if first.has(pane) {
                closing_undoes_splitting(*first, pane, split, axis, id, session);
                lemma_shared_has(*first, pane, split, axis, PaneNode::Leaf { id, session }, id);
            } else {
                closing_undoes_splitting(*second, pane, split, axis, id, session);
                lemma_shared_has(*second, pane, split, axis, PaneNode::Leaf { id, session }, id);
            }
        },
    }
}

/// A shared tree has the panes of both.
pub proof fn lemma_shared_has(node: PaneNode, pane: u64, split: u64, axis: Axis, other: PaneNode, id: u64)
    requires
        node.has(pane),
    ensures
        node.shared(pane, split, axis, other).has(id) == (node.has(id) || other.has(id)),
    decreases node,
{
    reveal_with_fuel(PaneNode::has, 2);
    match node {
        PaneNode::Leaf { .. } => {},
        PaneNode::Split { first, second, .. } => {
            if first.has(pane) {
                lemma_shared_has(*first, pane, split, axis, other, id);
            } else {
                lemma_shared_has(*second, pane, split, axis, other, id);
            }
        },
    }
}

/// Moving a divider moves no pane and leaves every child its smallest share.
pub proof fn dividers_move_no_panes(node: PaneNode, split: u64, share: u32)
    requires
        node.shares_fit(),
    ensures
        node.divided(split, fitted(share)).leaves() == node.leaves(),
        node.divided(split, fitted(share)).shares_fit(),
    decreases node,
{
    match node {
        PaneNode::Leaf { .. } => {},
        PaneNode::Split { first, second, .. } => {
            dividers_move_no_panes(*first, split, share);
            dividers_move_no_panes(*second, split, share);
        },
    }
}

/// Splitting, merging and removing leave every child its smallest share.
pub proof fn shares_always_fit(node: PaneNode, pane: u64, split: u64, axis: Axis, other: PaneNode)
    requires
        node.shares_fit(),
        other.shares_fit(),
    ensures
        node.shared(pane, split, axis, other).shares_fit(),
        node.without(pane) matches Some(rest) ==> rest.shares_fit(),
    decreases node,
{
    reveal_with_fuel(PaneNode::shares_fit, 2);
    match node {
        PaneNode::Leaf { .. } => {},
        PaneNode::Split { first, second, .. } => {
            shares_always_fit(*first, pane, split, axis, other);
            shares_always_fit(*second, pane, split, axis, other);
        },
    }
}

proof fn lemma_distinct_place(leaves: Seq<(u64, u64)>, place: int)
    requires
        distinct(leaves),
        0 <= place < leaves.len(),
    ensures
        place_of(leaves, leaves[place].0) == Some(place),
    decreases leaves.len(),
{
    if place > 0 {
        let rest = leaves.drop_first();
        assert forall|i: int, j: int| 0 <= i < j < rest.len() implies (#[trigger] rest[i]).0 != (#[trigger] rest[j]).0 by {
            assert(rest[i] == leaves[i + 1]);
            assert(rest[j] == leaves[j + 1]);
        }
        assert(rest[place - 1] == leaves[place]);
        lemma_distinct_place(rest, place - 1);
        assert(leaves[0].0 != leaves[place].0);
    }
}

/// Going to the next pane and back again ends where it began, and so does the other
/// way round.
pub proof fn the_focus_goes_round(leaves: Seq<(u64, u64)>, pane: u64, forward: bool)
    requires
        distinct(leaves),
        place_of(leaves, pane) is Some,
    ensures
        neighbour(leaves, pane, forward) matches Some(next) && neighbour(leaves, next, !forward) == Some(pane),
{
    let place = place_of(leaves, pane)->0;
    lemma_place_add(leaves, Seq::empty(), pane);
    let to = if forward {
        if place + 1 == leaves.len() {
            0
        } else {
            place + 1
        }
    } else if place == 0 {
        leaves.len() - 1
    } else {
        place - 1
    };
    lemma_distinct_place(leaves, to);
}

impl PaneNode {
    /// The splits of a tree, each with how its children lie and the share of the first.
    pub open spec fn splits(self) -> Seq<(u64, Axis, u32)>
        decreases self,
    {
        match self {
            PaneNode::Leaf { .. } => Seq::empty(),
            PaneNode::Split { id, axis, ratio, first, second } => seq![(id, axis, ratio)] + first.splits()
                + second.splits(),
        }
    }

    /// A tree is part of another.
    pub open spec fn holds(self, part: PaneNode) -> bool
        decreases self,
    {
        self == part || match self {
            PaneNode::Leaf { .. } => false,
            PaneNode::Split { first, second, .. } => first.holds(part) || second.holds(part),
        }
    }
}

/// The panes of the first half of a split come before those of the second.
pub proof fn panes_are_read_from_the_first_half_on(
    id: u64,
    axis: Axis,
    ratio: u32,
    first: PaneNode,
    second: PaneNode,
    pane: u64,
    session: u64,
)
    ensures
        (PaneNode::Leaf { id: pane, session }).leaves() == seq![(pane, session)],
        (PaneNode::Split { id, axis, ratio, first: Box::new(first), second: Box::new(second) }).leaves()
            == first.leaves() + second.leaves(),
{
}

/// Splitting a pane puts one split in its place, along the axis that was asked for and
/// with the id that was given, that shares the space evenly between the pane, which
/// comes first, and what it shares it with.
pub proof fn a_split_lies_along_its_axis(node: PaneNode, pane: u64, split: u64, axis: Axis, other: PaneNode)
    requires
        node.has(pane),
    ensures
        node.leaves()[place_in(node, pane)].0 == pane,
        node.shared(pane, split, axis, other).holds(
            PaneNode::Split {
                id: split,
                axis,
                ratio: 500_000,
                first: Box::new(PaneNode::Leaf { id: pane, session: node.leaves()[place_in(node, pane)].1 }),
                second: Box::new(other),
            },
        ),
    decreases node,
{
    lemma_place(node, pane);
    match node {
        PaneNode::Leaf { id, session } => {
            reveal_with_fuel(place_of, 2);
            assert(node.leaves()[0] == (id, session));
        },
        PaneNode::Split { first, second, .. } => {
            lemma_place(*first, pane);
            lemma_place(*second, pane);
            lemma_place_add(first.leaves(), second.leaves(), pane);
            if first.has(pane) {
                a_split_lies_along_its_axis(*first, pane, split, axis, other);
            } else {
                a_split_lies_along_its_axis(*second, pane, split, axis, other);
            }
        },
    }
}

/// Splitting adds that one split and those of what comes in; all splits that were
/// there keep their axes and their shares.
pub proof fn splitting_adds_one_split(node: PaneNode, pane: u64, split: u64, axis: Axis, other: PaneNode)
    requires
        node.has(pane),
    ensures
        node.shared(pane, split, axis, other).splits().to_multiset() == node.splits().to_multiset().add(
            other.splits().to_multiset(),
        ).insert((split, axis, 500_000u32)),
    decreases node,
{
    broadcast use vstd::seq_lib::group_to_multiset_ensures;

    let after = node.shared(pane, split, axis, other);
    match node {
        PaneNode::Leaf { .. } => {
            reveal_with_fuel(PaneNode::splits, 2);
            assert(after.splits() =~= seq![(split, axis, 500_000u32)] + other.splits());
            lemma_adding(seq![(split, axis, 500_000u32)], other.splits());
            lemma_one((split, axis, 500_000u32));
            assert(after.splits().to_multiset() =~= node.splits().to_multiset().add(
                other.splits().to_multiset(),
            ).insert((split, axis, 500_000u32)));
        },
        PaneNode::Split { id, axis: along, ratio, first, second } => {
            let own = seq![(id, along, ratio)];
            lemma_adding(own + first.splits(), second.splits());
            lemma_adding(own, first.splits());
            if first.has(pane) {
                splitting_adds_one_split(*first, pane, split, axis, other);
                let grown = first.shared(pane, split, axis, other).splits();
                lemma_adding(own + grown, second.splits());
                lemma_adding(own, grown);
            } else {
                splitting_adds_one_split(*second, pane, split, axis, other);
                let grown = second.shared(pane, split, axis, other).splits();
                lemma_adding(own + first.splits(), grown);
            }
            assert(after.splits().to_multiset() =~= node.splits().to_multiset().add(
                other.splits().to_multiset(),
            ).insert((split, axis, 500_000u32)));
        },
    }
}

proof fn lemma_adding(a: Seq<(u64, Axis, u32)>, b: Seq<(u64, Axis, u32)>)
    ensures
        (a + b).to_multiset() == a.to_multiset().add(b.to_multiset()),
{
    vstd::seq_lib::lemma_multiset_commutative(a, b);
}

proof fn lemma_one(item: (u64, Axis, u32))
    ensures
        seq![item].to_multiset() == vstd::multiset::Multiset::empty().insert(item),
{
    broadcast use vstd::seq_lib::group_to_multiset_ensures;

    assert(seq![item] =~= Seq::empty().push(item));
    assert(Seq::<(u64, Axis, u32)>::empty().to_multiset() =~= vstd::multiset::Multiset::empty());
}

/// Removing a pane takes one split away, and the others keep their axes and their
/// shares.
pub proof fn removing_takes_one_split(node: PaneNode, pane: u64)
    requires
        node.has(pane),
        node.without(pane) is Some,
    ensures
        exists|gone: (u64, Axis, u32)| #[trigger]
            node.splits().to_multiset() == (node.without(pane)->0).splits().to_multiset().insert(gone),
    decreases node,
{
    broadcast use vstd::seq_lib::group_to_multiset_ensures;

    lemma_without(node, pane);
    match node {
        PaneNode::Leaf { .. } => {},
        PaneNode::Split { id, axis, ratio, first, second } => {
            let own = seq![(id, axis, ratio)];
            lemma_one((id, axis, ratio));
            lemma_adding(own + first.splits(), second.splits());
            lemma_adding(own, first.splits());
            let rest = (node.without(pane)->0).splits().to_multiset();
            if first.has(pane) {
                lemma_without(*first, pane);
                match first.without(pane) {
                    None => {
                        assert(first.splits() =~= Seq::empty());
                        assert(node.splits().to_multiset() =~= rest.insert((id, axis, ratio)));
                    },
                    Some(left) => {
                        removing_takes_one_split(*first, pane);
                        let gone = choose|gone: (u64, Axis, u32)| #[trigger]
                            first.splits().to_multiset() == left.splits().to_multiset().insert(gone);
                        lemma_adding(own + left.splits(), second.splits());
                        lemma_adding(own, left.splits());
                        assert(node.splits().to_multiset() =~= rest.insert(gone));
                    },
                }
            } else {
                lemma_without(*second, pane);
                match second.without(pane) {
                    None => {
                        assert(second.splits() =~= Seq::empty());
                        assert(node.splits().to_multiset() =~= rest.insert((id, axis, ratio)));
                    },
                    Some(left) => {
                        removing_takes_one_split(*second, pane);
                        let gone = choose|gone: (u64, Axis, u32)| #[trigger]
                            second.splits().to_multiset() == left.splits().to_multiset().insert(gone);
                        lemma_adding(own + first.splits(), left.splits());
                        assert(node.splits().to_multiset() =~= rest.insert(gone));
                    },
                }
            }
        },
    }
}

/// The sibling of a pane that is removed grows into the space of both.
pub proof fn a_sibling_takes_over(id: u64, axis: Axis, ratio: u32, pane: u64, session: u64, other: PaneNode)
    requires
        !other.has(pane),
    ensures
        (PaneNode::Split {
            id,
            axis,
            ratio,
            first: Box::new(PaneNode::Leaf { id: pane, session }),
            second: Box::new(other),
        }).without(pane) == Some(other),
        (PaneNode::Split {
            id,
            axis,
            ratio,
            first: Box::new(other),
            second: Box::new(PaneNode::Leaf { id: pane, session }),
        }).without(pane) == Some(other),
{
    reveal_with_fuel(PaneNode::without, 2);
    reveal_with_fuel(PaneNode::has, 2);
}

/// Moving a divider changes the share of the splits of that id, and nothing else.
pub proof fn a_divider_moves_its_own_split(node: PaneNode, split: u64, share: u32, i: int)
    requires
        0 <= i < node.splits().len(),
    ensures
        node.divided(split, share).splits().len() == node.splits().len(),
        node.divided(split, share).splits()[i].0 == node.splits()[i].0,
        node.divided(split, share).splits()[i].1 == node.splits()[i].1,
        node.splits()[i].0 == split ==> node.divided(split, share).splits()[i].2 == share,
        node.splits()[i].0 != split ==> node.divided(split, share).splits()[i].2 == node.splits()[i].2,
    decreases node,
{
    lemma_divided_len(node, split, share);
    match node {
        PaneNode::Leaf { .. } => {},
        PaneNode::Split { first, second, .. } => {
            lemma_divided_len(*first, split, share);
            lemma_divided_len(*second, split, share);
            let n = first.splits().len() as int;
            if 1 <= i < 1 + n {
                a_divider_moves_its_own_split(*first, split, share, i - 1);
            } else if i >= 1 + n {
                a_divider_moves_its_own_split(*second, split, share, i - 1 - n);
            }
        },
    }
}

proof fn lemma_divided_len(node: PaneNode, split: u64, share: u32)
    ensures
        node.divided(split, share).splits().len() == node.splits().len(),
    decreases node,
{
    match node {
        PaneNode::Leaf { .. } => {},
        PaneNode::Split { first, second, .. } => {
            lemma_divided_len(*first, split, share);
            lemma_divided_len(*second, split, share);
        },
    }
}

/// A divider goes where it is dragged, between a tenth and nine tenths.
pub proof fn dividers_stop_at_a_tenth(share: u32)
    ensures
        100_000 <= fitted(share) <= 900_000,
        100_000 <= share <= 900_000 ==> fitted(share) == share,
        share < 100_000 ==> fitted(share) == 100_000,
        share > 900_000 ==> fitted(share) == 900_000,
{
}

/// The next pane is the one behind in the order of the panes, and the first one after
/// the last; the previous pane is the one in front.
pub proof fn the_focus_moves_in_the_order_of_the_panes(leaves: Seq<(u64, u64)>, i: int)
    requires
        distinct(leaves),
        0 <= i < leaves.len(),
    ensures
        i + 1 < leaves.len() ==> neighbour(leaves, leaves[i].0, true) == Some(leaves[i + 1].0),
        i + 1 == leaves.len() ==> neighbour(leaves, leaves[i].0, true) == Some(leaves[0].0),
        i > 0 ==> neighbour(leaves, leaves[i].0, false) == Some(leaves[i - 1].0),
        i == 0 ==> neighbour(leaves, leaves[i].0, false) == Some(leaves[leaves.len() - 1].0),
{
    lemma_distinct_place(leaves, i);
}

/// A pane that is not there has no neighbour, and the place of one that is there holds
/// it and is the first that does.
pub proof fn panes_are_found_where_they_are(leaves: Seq<(u64, u64)>, pane: u64, forward: bool)
    ensures
        match place_of(leaves, pane) {
            Some(place) => {
                &&& 0 <= place < leaves.len()
                &&& leaves[place].0 == pane
                &&& forall|i: int| 0 <= i < place ==> (#[trigger] leaves[i]).0 != pane
            },
            None => {
                &&& forall|i: int| 0 <= i < leaves.len() ==> (#[trigger] leaves[i]).0 != pane
                &&& neighbour(leaves, pane, forward) is None
            },
        },
    decreases leaves.len(),
{
    if leaves.len() > 0 && leaves[0].0 != pane {
        let rest = leaves.drop_first();
        panes_are_found_where_they_are(rest, pane, forward);
        assert forall|i: int|
            0 < i < leaves.len() && (place_of(rest, pane) is None || i <= place_of(rest, pane)->0) implies (
        #[trigger] leaves[i]).0 != pane by {
            assert(rest[i - 1] == leaves[i]);
        }
        if let Some(place) = place_of(rest, pane) {
            assert(rest[place] == leaves[place + 1]);
        }
    }
}

/// A tree has a split when one of its splits has that id.
pub proof fn splits_are_found_by_their_ids(node: PaneNode, split: u64)
    ensures
        node.has_split(split) <==> exists|i: int| 0 <= i < node.splits().len() && (#[trigger] node.splits()[i]).0 == split,
    decreases node,
{
    match node {
        PaneNode::Leaf { .. } => {},
        PaneNode::Split { id, axis, ratio, first, second } => {
            splits_are_found_by_their_ids(*first, split);
            splits_are_found_by_their_ids(*second, split);
            let all = node.splits();
            let n = first.splits().len() as int;
            assert(all[0] == (id, axis, ratio));
            if first.has_split(split) {
                let i = choose|i: int| 0 <= i < first.splits().len() && (#[trigger] first.splits()[i]).0 == split;
                assert(all[1 + i] == first.splits()[i]);
            }
            if second.has_split(split) {
                let i = choose|i: int| 0 <= i < second.splits().len() && (#[trigger] second.splits()[i]).0 == split;
                assert(all[1 + n + i] == second.splits()[i]);
            }
            if exists|i: int| 0 <= i < all.len() && (#[trigger] all[i]).0 == split {
                let i = choose|i: int| 0 <= i < all.len() && (#[trigger] all[i]).0 == split;
                if 1 <= i < 1 + n {
                    assert(all[i] == first.splits()[i - 1]);
                } else if i >= 1 + n {
                    assert(all[i] == second.splits()[i - 1 - n]);
                }
            }
        },
    }
}

} // verus!
