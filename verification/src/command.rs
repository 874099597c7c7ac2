//! The command interpreter: a small incremental state machine that consumes
//! the keystrokes buffered since the last resolved command and yields either
//! "incomplete", "rejected", or a concrete [`Action`].
//!
//! The interpreter is deliberately stateless per call: it is a pure function
//! of the whole accumulated buffer, so the same input always yields the same
//! outcome.

use vstd::prelude::*;
use vstd::string::StrSliceExecFns;

verus! {

/// The possible outcomes of a user-typed command.
#[derive(Debug, Clone, PartialEq, Eq)]
pub enum Action {
    /// The user typed a command that is not defined; the command buffer
    /// should still be cleared.
    Rejected,
    /// Quit the editor.
    Quit,
    /// Replace the currently selected node with a node represented by the
    /// given character.
    Replace(char),
}

/// What a command buffer resolves to: `None` while the command is still
/// incomplete, `Some(action)` once the shortest valid prefix is recognized.
///
/// The buffer is parsed greedily from the left: the first character decides
/// the command, and at most one further character is consumed as an argument.
/// Excess trailing characters after a complete command are ignored by design.
pub open spec fn interpret_spec(s: Seq<char>) -> Option<Action> {
    if s.len() == 0 {
        None
    } else if s[0] == 'q' {
        Some(Action::Quit)
    } else if s[0] == 'r' {
        if s.len() >= 2 {
            Some(Action::Replace(s[1]))
        } else {
            None
        }
    } else {
        Some(Action::Rejected)
    }
}

/// Attempt to convert a command buffer into an [`Action`].
///
/// This parses the string from the start and returns as soon as it finds a
/// valid command, so `"q489flshb"` is treated like `"q"`. It returns:
/// - `None` if the command is incomplete,
/// - `Some(Action::Rejected)` if the command is not defined (like `"X"`),
/// - the corresponding `Some(Action)` otherwise.
pub fn interpret_command(command: &str) -> (r: Option<Action>)
    ensures
        r == interpret_spec(command@),
{
    let len = command.unicode_len();
    if len == 0 {
        None
    } else {
        let first = command.get_char(0);
        if first == 'q' {
            Some(Action::Quit)
        } else if first == 'r' {
            if len >= 2 {
                Some(Action::Replace(command.get_char(1)))
            } else {
                None
            }
        } else {
            Some(Action::Rejected)
        }
    }
}

/// Interpretation is deterministic and total: the outcome is a function of
/// the buffer contents alone, so interpreting the same buffer twice yields
/// the same result.
pub proof fn lemma_interpret_deterministic(s1: Seq<char>, s2: Seq<char>)
    requires
        s1 == s2,
    ensures
        interpret_spec(s1) == interpret_spec(s2),
{
}

/// The empty buffer and the lone `'r'` are the only incomplete buffers.
pub proof fn lemma_interpret_incomplete(s: Seq<char>)
    ensures
        interpret_spec(s) is None <==> (s.len() == 0 || (s.len() == 1 && s[0] == 'r')),
{
}

/// Prefix rule: any buffer starting with `'q'` resolves to `Quit`, whatever
/// trailing characters follow.
pub proof fn lemma_quit_ignores_trailing(s: Seq<char>)
    requires
        s.len() >= 1,
        s[0] == 'q',
    ensures
        interpret_spec(s) == Some(Action::Quit),
{
}

/// A buffer `"r"` followed by any character `X` resolves to `Replace(X)`,
/// whatever trailing characters follow.
pub proof fn lemma_replace_any_argument(s: Seq<char>)
    requires
        s.len() >= 2,
        s[0] == 'r',
    ensures
        interpret_spec(s) == Some(Action::Replace(s[1])),
{
}

/// A buffer starting with any character other than `'q'` or `'r'` resolves
/// immediately to `Rejected`.
pub proof fn lemma_undefined_command_rejected(s: Seq<char>)
    requires
        s.len() >= 1,
        s[0] != 'q',
        s[0] != 'r',
    ensures
        interpret_spec(s) == Some(Action::Rejected),
{
}

} // verus!
