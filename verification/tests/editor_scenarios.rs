use sapling::ast::FormatStyle;
use sapling::editor::command_column;
use sapling::editor::status_hint;
use sapling::editor::EditorCore;
use sapling::editor::KeyInput;
use sapling::json::build_from_tree_literal;
use sapling::json::TreeLiteral;
use sapling::tree::EditableTree;

fn sample_editor() -> EditorCore {
    let literal = TreeLiteral::Array(vec![
        TreeLiteral::True,
        TreeLiteral::False,
        TreeLiteral::Object(vec![("value".to_string(), TreeLiteral::True)]),
    ]);
    let (store, _root) = build_from_tree_literal(&literal);
    EditorCore::new(EditableTree::from_tree(store))
}

#[test]
fn quit_terminates_without_mutation() {
    let mut editor = sample_editor();
    let before = editor.tree().to_text(FormatStyle::Pretty);
    assert!(editor.handle_key(KeyInput::Char('q')));
    assert_eq!(editor.tree().to_text(FormatStyle::Pretty), before);
    assert_eq!(editor.command_text(), "");
}

#[test]
fn undefined_key_is_rejected_then_quit() {
    let mut editor = sample_editor();
    let before = editor.tree().to_text(FormatStyle::Compact);
    assert!(!editor.handle_key(KeyInput::Char('x')));
    assert_eq!(editor.command_text(), "");
    assert_eq!(editor.tree().to_text(FormatStyle::Compact), before);
    assert!(editor.handle_key(KeyInput::Char('q')));
}

#[test]
fn replace_command_edits_the_selected_node() {
    let mut editor = sample_editor();
    assert!(!editor.handle_key(KeyInput::Char('r')));
    assert_eq!(editor.command_text(), "r");
    assert!(!editor.handle_key(KeyInput::Char('t')));
    assert_eq!(editor.command_text(), "");
    assert_eq!(editor.tree().to_text(FormatStyle::Compact), "true");
    // The selection still resolves after the edit.
    assert!(editor.tree().get_selected().is_ok());
}

#[test]
fn replace_with_unmapped_character_leaves_tree_unchanged() {
    let mut editor = sample_editor();
    let before = editor.tree().to_text(FormatStyle::Compact);
    assert!(!editor.handle_key(KeyInput::Char('r')));
    assert!(!editor.handle_key(KeyInput::Char('z')));
    assert_eq!(editor.command_text(), "");
    assert_eq!(editor.tree().to_text(FormatStyle::Compact), before);
}

#[test]
fn abort_clears_a_partial_command() {
    let mut editor = sample_editor();
    let before = editor.tree().to_text(FormatStyle::Compact);
    assert!(!editor.handle_key(KeyInput::Char('r')));
    assert_eq!(editor.command_text(), "r");
    assert!(!editor.handle_key(KeyInput::Abort));
    assert_eq!(editor.command_text(), "");
    // A fresh 't' is now an undefined command, not a replace argument.
    assert!(!editor.handle_key(KeyInput::Char('t')));
    assert_eq!(editor.command_text(), "");
    assert_eq!(editor.tree().to_text(FormatStyle::Compact), before);
}

#[test]
fn other_keys_are_ignored() {
    let mut editor = sample_editor();
    let before = editor.tree().to_text(FormatStyle::Pretty);
    assert!(!editor.handle_key(KeyInput::Char('r')));
    assert!(!editor.handle_key(KeyInput::Other));
    // The pending command survives an ignored key.
    assert_eq!(editor.command_text(), "r");
    assert_eq!(editor.tree().to_text(FormatStyle::Pretty), before);
}

#[test]
fn status_line_layout() {
    assert_eq!(status_hint(), "Press 'q' to exit.");
    assert_eq!(command_column(80, 0), 75);
    assert_eq!(command_column(80, 3), 72);
    assert_eq!(command_column(8, 3), 0);
}
