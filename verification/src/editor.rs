//! The pure state machine behind the editor loop: it owns the editable
//! tree and the command buffer, consumes one key event at a time, and
//! decides what each keystroke does. Reading key events and drawing the
//! screen are terminal concerns and live outside the library.

use vstd::prelude::*;
use vstd::string::StringExecFns;

verus! {

use crate::command::Action;
use crate::command::interpret_command;
use crate::command::interpret_spec;
use crate::json::Json;
use crate::json::node_for_replace_char;
use crate::json::spec_node_for_replace_char;
use crate::tree::EditableTree;

/// A key event reduced to what the editor core decides on: a printable
/// character, the abort key (escape), or anything else.
#[derive(Debug, Clone, Copy, PartialEq, Eq)]
pub enum KeyInput {
    Char(char),
    Abort,
    Other,
}

/// Relies on `String::push`: appends exactly the given character to the
/// end of the string.
#[verifier::external_body]
fn push_char(s: &mut String, c: char)
    ensures
        final(s)@ == old(s)@.push(c),
{
    s.push(c);
}

/// The top-level editor state: the editable tree plus the command buffer
/// accumulated since the last resolved or aborted command.
pub struct EditorCore {
    tree: EditableTree<Json>,
    command: String,
}

impl EditorCore {
    /// The stored nodes of the tree, in slot order.
    pub closed spec fn store_view(self) -> Seq<Json> {
        self.tree.store_view()
    }

    /// The designated root reference.
    pub closed spec fn root_spec(self) -> int {
        self.tree.root_spec()
    }

    /// The currently selected reference.
    pub closed spec fn selected_spec(self) -> int {
        self.tree.selected_spec()
    }

    /// The accumulated command buffer.
    pub closed spec fn command_view(self) -> Seq<char> {
        self.command@
    }

    /// A well-formed editor: its tree is well-formed.
    pub closed spec fn wf(self) -> bool {
        self.tree.wf()
    }

    /// The tree is exactly as in `other`: same slots, same root, same
    /// selection.
    pub open spec fn same_tree(self, other: EditorCore) -> bool {
        &&& self.store_view() == other.store_view()
        &&& self.root_spec() == other.root_spec()
        &&& self.selected_spec() == other.selected_spec()
    }

    /// What one printable character does to the editor: it is appended to
    /// the command buffer and the buffer is interpreted. An incomplete
    /// command waits for more input; a resolved command clears the buffer
    /// and acts: `Quit` stops the loop, `Rejected` does nothing, and
    /// `Replace(x)` replaces the selected node by the node `x` stands for,
    /// if any.
    pub open spec fn char_outcome(pre: EditorCore, post: EditorCore, c: char, quit: bool) -> bool {
        let buf = pre.command_view().push(c);
        match interpret_spec(buf) {
            None => !quit && post.command_view() == buf && post.same_tree(pre),
            Some(action) => post.command_view() == Seq::<char>::empty() && match action {
                Action::Quit => quit && post.same_tree(pre),
                Action::Rejected => !quit && post.same_tree(pre),
                Action::Replace(x) => !quit && match spec_node_for_replace_char(x) {
                    Some(node) => {
                        &&& post.store_view() == pre.store_view().update(
                            pre.selected_spec(),
                            node,
                        )
                        &&& post.selected_spec() == pre.selected_spec()
                        &&& post.root_spec() == pre.root_spec()
                    },
                    None => post.same_tree(pre),
                },
            },
        }
    }

    /// Start the editor on a freshly built tree, with an empty command
    /// buffer.
    pub fn new(tree: EditableTree<Json>) -> (e: EditorCore)
        requires
            tree.wf(),
        ensures
            e.wf(),
            e.store_view() == tree.store_view(),
            e.root_spec() == tree.root_spec(),
            e.selected_spec() == tree.selected_spec(),
            e.command_view() == Seq::<char>::empty(),
    {
        EditorCore { tree, command: String::new() }
    }

    /// Borrow the editable tree, for rendering.
    pub fn tree(&self) -> (t: &EditableTree<Json>)
        ensures
            t.store_view() == self.store_view(),
            t.root_spec() == self.root_spec(),
            t.selected_spec() == self.selected_spec(),
            self.wf() ==> t.wf(),
    {
        &self.tree
    }

    /// The live (possibly partial) command buffer, for the status line.
    pub fn command_text(&self) -> (s: String)
        ensures
            s@ == self.command_view(),
    {
        self.command.clone()
    }

    /// Process one key event and report whether the editor should stop.
    ///
    /// A printable character acts as [`EditorCore::char_outcome`] says; the
    /// abort key clears the command buffer without producing an action; any
    /// other key does nothing. The tree stays well-formed whatever arrives.
    pub fn handle_key(&mut self, key: KeyInput) -> (quit: bool)
        requires
            old(self).wf(),
        ensures
            final(self).wf(),
            (key matches KeyInput::Char(c) ==> EditorCore::char_outcome(
                *old(self),
                *final(self),
                c,
                quit,
            )),
            (key matches KeyInput::Abort ==> !quit && final(self).command_view()
                == Seq::<char>::empty() && final(self).same_tree(*old(self))),
            (key matches KeyInput::Other ==> !quit && final(self).command_view()
                == old(self).command_view() && final(self).same_tree(*old(self))),
    {
        match key {
            KeyInput::Char(c) => {
                push_char(&mut self.command, c);
                match interpret_command(self.command.as_str()) {
                    None => false,
                    Some(action) => {
                        self.command = String::new();
                        match action {
                            Action::Quit => true,
                            Action::Rejected => false,
                            Action::Replace(x) => {
                                match node_for_replace_char(x) {
                                    Some(node) => {
                                        let _ = self.tree.replace_selected(node);
                                        false
                                    },
                                    None => false,
                                }
                            },
                        }
                    },
                }
            },
            KeyInput::Abort => {
                self.command = String::new();
                false
            },
            KeyInput::Other => false,
        }
    }
}

/// Where the status line prints the live command buffer: right-aligned,
/// five columns in from the right edge of the terminal.
pub open spec fn spec_command_column(width: int, command_len: int) -> int {
    width - 5 - command_len
}

/// The column at which the command buffer is printed on the bottom bar.
pub fn command_column(width: usize, command_len: usize) -> (col: usize)
    requires
        command_len + 5 <= width,
    ensures
        col as int == spec_command_column(width as int, command_len as int),
{
    width - 5 - command_len
}

/// The fixed hint shown on the bottom bar.
pub fn status_hint() -> (s: String)
    ensures
        s@ == "Press 'q' to exit."@,
{
    String::from_str("Press 'q' to exit.")
}

} // verus!
