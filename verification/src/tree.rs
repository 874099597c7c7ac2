//! The editable tree: an arena node store bundled with a selection cursor
//! and the structural edit operations the editor loop drives.
//!
//! Invariant preserved across every operation: the selection always
//! resolves to a live node.

use vstd::prelude::*;

verus! {

use crate::ast::AstNode;
use crate::store::NodeStore;
use crate::store::StoreError;

/// The selection was stale: it did not resolve to a live slot. This should
/// not occur under correct use, but the operations check rather than
/// assume.
#[derive(Debug, Clone, Copy, PartialEq, Eq, Structural)]
pub enum TreeError {
    InvalidSelection,
}

/// An arena node store plus a "currently selected node" cursor,
/// initialized to the root.
pub struct EditableTree<T> {
    store: NodeStore<T>,
    selected: usize,
}

impl<T: AstNode> EditableTree<T> {
    /// The stored nodes, in slot order.
    pub closed spec fn store_view(self) -> Seq<T> {
        self.store.nodes_view()
    }

    /// The designated root reference of the underlying store.
    pub closed spec fn root_spec(self) -> int {
        self.store.root_spec()
    }

    /// The currently selected reference.
    pub closed spec fn selected_spec(self) -> int {
        self.selected as int
    }

    /// A well-formed editable tree: the store is well-formed and the
    /// selection names a live slot.
    pub closed spec fn wf(self) -> bool {
        &&& self.store.wf()
        &&& 0 <= self.selected_spec() < self.store_view().len()
    }

    /// Wrap a freshly built store, selecting its root.
    pub fn from_tree(store: NodeStore<T>) -> (t: Self)
        requires
            store.wf(),
        ensures
            t.wf(),
            t.store_view() == store.nodes_view(),
            t.root_spec() == store.root_spec(),
            t.selected_spec() == store.root_spec(),
    {
        let selected = store.root();
        EditableTree { store, selected }
    }

    /// Borrow the underlying store, for read-only walks such as rendering.
    pub fn store(&self) -> (s: &NodeStore<T>)
        ensures
            s.nodes_view() == self.store_view(),
            s.root_spec() == self.root_spec(),
            self.wf() ==> s.wf(),
    {
        &self.store
    }

    /// The currently selected reference.
    pub fn selection(&self) -> (r: usize)
        ensures
            r as int == self.selected_spec(),
    {
        self.selected
    }

    /// Look up the currently selected node. In a well-formed tree this
    /// never fails.
    pub fn get_selected(&self) -> (res: Result<&T, StoreError>)
        ensures
            match res {
                Ok(node) => {
                    &&& self.selected_spec() < self.store_view().len()
                    &&& *node == self.store_view()[self.selected_spec()]
                },
                Err(e) => {
                    &&& self.selected_spec() >= self.store_view().len()
                    &&& e == StoreError::InvalidReference
                },
            },
            self.wf() ==> res is Ok,
    {
        self.store.get(self.selected)
    }

    /// Replace the node at the currently selected reference through the
    /// store. The selection is unchanged and now denotes the new node;
    /// every other slot is untouched. Fails with `InvalidSelection` exactly
    /// when the selection was stale, which cannot happen in a well-formed
    /// tree.
    ///
    /// The new node's child references must point below the selection, the
    /// arena discipline that keeps the reference graph acyclic; nodes built
    /// by edit commands are leaves, which satisfy this trivially.
    pub fn replace_selected(&mut self, node: T) -> (res: Result<(), TreeError>)
        requires
            forall|j: int|
                0 <= j < node.child_refs().len()
                    ==> (#[trigger] node.child_refs()[j]) < old(self).selected_spec(),
        ensures
            match res {
                Ok(()) => {
                    &&& old(self).selected_spec() < old(self).store_view().len()
                    &&& final(self).store_view() == old(self).store_view().update(
                        old(self).selected_spec(),
                        node,
                    )
                    &&& final(self).selected_spec() == old(self).selected_spec()
                    &&& final(self).root_spec() == old(self).root_spec()
                    &&& (old(self).wf() ==> final(self).wf())
                },
                Err(e) => {
                    &&& old(self).selected_spec() >= old(self).store_view().len()
                    &&& final(self).store_view() == old(self).store_view()
                    &&& final(self).selected_spec() == old(self).selected_spec()
                    &&& final(self).root_spec() == old(self).root_spec()
                    &&& e == TreeError::InvalidSelection
                },
            },
            old(self).wf() ==> res is Ok,
    {
        let sel = self.selected;
        match self.store.replace(sel, node) {
            Ok(()) => {
                proof {
                    if old(self).wf() {
                        assert forall|i: int, j: int|
                            0 <= i < self.store_view().len() && 0 <= j
                                < self.store_view()[i].child_refs().len() implies (
                        #[trigger] self.store_view()[i].child_refs()[j]) < i by {
                            if i != old(self).selected_spec() {
                                assert(self.store_view()[i] == old(self).store_view()[i]);
                            }
                        }
                    }
                }
                Ok(())
            },
            Err(_) => Err(TreeError::InvalidSelection),
        }
    }
}

/// Selection safety: in a well-formed tree the selection names a live slot,
/// so looking it up cannot fail; and since `replace_selected` both
/// preserves well-formedness and leaves the selection unchanged, this holds
/// after any sequence of `replace_selected` calls.
pub proof fn lemma_selection_always_live<T: AstNode>(t: EditableTree<T>)
    requires
        t.wf(),
    ensures
        0 <= t.selected_spec() < t.store_view().len(),
{
}

} // verus!
