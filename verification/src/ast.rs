//! The node contract: the capability set any tree-node type must expose so
//! that the rest of the system can treat trees generically.
//!
//! A node owns its payload plus zero or more *references* to children; it
//! never owns children directly. A reference is an index into the arena
//! store that holds the whole tree (see [`crate::store`]).

use vstd::prelude::*;

verus! {

/// A configuration value selecting how a tree is serialized to displayable
/// text. It is not tied to any one node and is passed explicitly to render
/// calls, never stored globally.
#[derive(Debug, Clone, Copy, PartialEq, Eq, Structural)]
pub enum FormatStyle {
    /// Everything on one line, no spaces.
    Compact,
    /// One child per line, indented by depth.
    Pretty,
}

/// The contract a grammar's node type must satisfy to be structurally
/// editable: it must disclose the references to its direct children, in
/// display order, both at the specification level and executably.
pub trait AstNode: Sized {
    /// The node's direct child references in display order; empty for leaves.
    spec fn child_refs(&self) -> Seq<usize>;

    /// Executable access to the direct child references.
    fn children(&self) -> (r: Vec<usize>)
        ensures
            r@ == self.child_refs(),
    ;
}

} // verus!
