//! The arena node store: a flat, indexable container that owns all nodes of
//! one tree and hands out lightweight handles (indices) in place of
//! pointers.
//!
//! A reference is valid only for the store that issued it; replacing a
//! slot's content in place does not change the slot's identity, so every
//! other reference pointing at it stays valid and observes the new content.

use vstd::prelude::*;

verus! {

use crate::ast::AstNode;

/// A reference that does not resolve to a live slot. This indicates a
/// broken invariant — it is never reachable through the documented
/// operations — but the store checks rather than assumes.
#[derive(Debug, Clone, Copy, PartialEq, Eq, Structural)]
pub enum StoreError {
    InvalidReference,
}

/// Flat owning storage for all nodes of one tree, addressed by index, plus
/// a designated root reference.
pub struct NodeStore<T> {
    nodes: Vec<T>,
    root: usize,
}

impl<T: AstNode> NodeStore<T> {
    /// The stored nodes, in slot order.
    pub closed spec fn nodes_view(self) -> Seq<T> {
        self.nodes@
    }

    /// The designated root reference.
    pub closed spec fn root_spec(self) -> int {
        self.root as int
    }

    /// Every node's child references point at earlier slots. This is the
    /// arena discipline that makes every reference live and the reference
    /// graph acyclic.
    pub open spec fn refs_closed(self) -> bool {
        forall|i: int, j: int|
            0 <= i < self.nodes_view().len() && 0 <= j < self.nodes_view()[i].child_refs().len()
                ==> (#[trigger] self.nodes_view()[i].child_refs()[j]) < i
    }

    /// A well-formed store: references closed and a live root slot.
    pub open spec fn wf(self) -> bool {
        &&& self.refs_closed()
        &&& 0 <= self.root_spec() < self.nodes_view().len()
    }

    /// An empty store, before any node has been inserted. Used only while a
    /// fresh tree is being built bottom-up; a finished store always holds
    /// its root.
    pub(crate) fn new_empty() -> (s: Self)
        ensures
            s.nodes_view() == Seq::<T>::empty(),
            s.root_spec() == 0,
    {
        NodeStore { nodes: Vec::new(), root: 0 }
    }

    /// Designate the slot the given reference names as the root.
    pub(crate) fn set_root(&mut self, r: usize)
        requires
            r < old(self).nodes_view().len(),
        ensures
            final(self).nodes_view() == old(self).nodes_view(),
            final(self).root_spec() == r as int,
    {
        self.root = r;
    }

    /// The slots live in one vector, so their count fits in a machine
    /// word.
    pub proof fn lemma_len_bounded(self)
        ensures
            self.nodes_view().len() <= usize::MAX,
    {
        assert(self.nodes.len() == self.nodes@.len());
    }

    /// The number of slots currently allocated.
    pub fn len(&self) -> (n: usize)
        ensures
            n == self.nodes_view().len(),
    {
        self.nodes.len()
    }

    /// The designated root reference; it always names a live slot in a
    /// well-formed store.
    pub fn root(&self) -> (r: usize)
        ensures
            r as int == self.root_spec(),
    {
        self.root
    }

    /// Allocate a new slot, store the node in it, and return its handle.
    /// Never fails: the backing sequence grows as needed.
    pub fn insert(&mut self, node: T) -> (r: usize)
        ensures
            final(self).nodes_view() == old(self).nodes_view().push(node),
            r as int == old(self).nodes_view().len(),
            final(self).root_spec() == old(self).root_spec(),
    {
        let r = self.nodes.len();
        self.nodes.push(node);
        r
    }

    /// Look up the node a reference names. Fails with `InvalidReference`
    /// exactly when the reference does not name a live slot.
    pub fn get(&self, r: usize) -> (res: Result<&T, StoreError>)
        ensures
            match res {
                Ok(node) => r < self.nodes_view().len() && *node == self.nodes_view()[r as int],
                Err(e) => r >= self.nodes_view().len() && e == StoreError::InvalidReference,
            },
    {
        if r < self.nodes.len() {
            Ok(&self.nodes[r])
        } else {
            Err(StoreError::InvalidReference)
        }
    }

    /// Look up a node through a reference already known to be live.
    pub fn node_at(&self, r: usize) -> (node: &T)
        requires
            r < self.nodes_view().len(),
        ensures
            *node == self.nodes_view()[r as int],
    {
        &self.nodes[r]
    }

    /// Overwrite the slot's content in place. The slot's identity does not
    /// change, so every other reference pointing at it remains valid and
    /// now observes the new content; every slot but this one is untouched.
    /// Fails with `InvalidReference` exactly when the reference does not
    /// name a live slot, leaving the store unchanged.
    pub fn replace(&mut self, r: usize, node: T) -> (res: Result<(), StoreError>)
        ensures
            match res {
                Ok(()) => {
                    &&& r < old(self).nodes_view().len()
                    &&& final(self).nodes_view() == old(self).nodes_view().update(r as int, node)
                    &&& final(self).root_spec() == old(self).root_spec()
                },
                Err(e) => {
                    &&& r >= old(self).nodes_view().len()
                    &&& final(self).nodes_view() == old(self).nodes_view()
                    &&& final(self).root_spec() == old(self).root_spec()
                    &&& e == StoreError::InvalidReference
                },
            },
    {
        if r < self.nodes.len() {
            self.nodes[r] = node;
            Ok(())
        } else {
            Err(StoreError::InvalidReference)
        }
    }
}

/// Replacing one slot frames every other slot: after an update at `r`, every
/// other live reference still names the same content as before.
pub proof fn lemma_replace_frames_others<T>(pre: Seq<T>, post: Seq<T>, r: int, node: T, other: int)
    requires
        0 <= r < pre.len(),
        post == pre.update(r, node),
        0 <= other < pre.len(),
        other != r,
    ensures
        post.len() == pre.len(),
        post[other] == pre[other],
        post[r] == node,
{
}

} // verus!
