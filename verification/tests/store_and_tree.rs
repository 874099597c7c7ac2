use sapling::ast::AstNode;
use sapling::ast::FormatStyle;
use sapling::json::build_from_tree_literal;
use sapling::json::Json;
use sapling::json::TreeLiteral;
use sapling::store::StoreError;
use sapling::tree::EditableTree;

fn sample_literal() -> TreeLiteral {
    TreeLiteral::Array(vec![
        TreeLiteral::True,
        TreeLiteral::False,
        TreeLiteral::Object(vec![("value".to_string(), TreeLiteral::True)]),
    ])
}

#[test]
fn build_renders_compact_round_trip() {
    let (store, _root) = build_from_tree_literal(&sample_literal());
    let tree = EditableTree::from_tree(store);
    assert_eq!(
        tree.to_text(FormatStyle::Compact),
        "[true,false,{\"value\":true}]"
    );
}

#[test]
fn build_renders_pretty_round_trip() {
    let (store, _root) = build_from_tree_literal(&sample_literal());
    let tree = EditableTree::from_tree(store);
    assert_eq!(
        tree.to_text(FormatStyle::Pretty),
        "[\n  true,\n  false,\n  {\n    \"value\": true\n  }\n]"
    );
}

#[test]
fn build_renders_leaves_and_empty_composites() {
    for (literal, compact, pretty) in [
        (TreeLiteral::True, "true", "true"),
        (TreeLiteral::False, "false", "false"),
        (TreeLiteral::Null, "null", "null"),
        (TreeLiteral::Array(vec![]), "[]", "[]"),
        (TreeLiteral::Object(vec![]), "{}", "{}"),
    ] {
        let (store, _root) = build_from_tree_literal(&literal);
        let tree = EditableTree::from_tree(store);
        assert_eq!(tree.to_text(FormatStyle::Compact), compact);
        assert_eq!(tree.to_text(FormatStyle::Pretty), pretty);
    }
}

#[test]
fn insert_allocates_fresh_slots() {
    let (mut store, root) = build_from_tree_literal(&sample_literal());
    let before = store.len();
    let r = store.insert(Json::Null);
    assert_eq!(r, before);
    assert_eq!(store.len(), before + 1);
    assert_eq!(store.get(r).unwrap(), &Json::Null);
    // The root slot is untouched by the insertion.
    assert_eq!(store.root(), root);
}

#[test]
fn replace_changes_one_slot_and_frames_the_rest() {
    let (mut store, root) = build_from_tree_literal(&sample_literal());
    // Bottom-up build: slot 0 holds the first leaf (`true`), the root comes
    // last.
    assert_eq!(store.get(0).unwrap(), &Json::True);
    let snapshot: Vec<Json> = (0..store.len())
        .map(|i| store.get(i).unwrap().clone())
        .collect();
    assert_eq!(store.replace(0, Json::Null), Ok(()));
    assert_eq!(store.get(0).unwrap(), &Json::Null);
    for (i, old_node) in snapshot.iter().enumerate().skip(1) {
        assert_eq!(store.get(i).unwrap(), old_node);
    }
    assert_eq!(store.root(), root);
}

#[test]
fn dangling_references_are_rejected() {
    let (mut store, _root) = build_from_tree_literal(&sample_literal());
    let out_of_range = store.len();
    assert_eq!(store.get(out_of_range), Err(StoreError::InvalidReference));
    assert_eq!(
        store.replace(out_of_range, Json::Null),
        Err(StoreError::InvalidReference)
    );
}

#[test]
fn selection_survives_replacements() {
    let (store, root) = build_from_tree_literal(&sample_literal());
    let mut tree = EditableTree::from_tree(store);
    assert_eq!(tree.selection(), root);
    assert!(tree.get_selected().is_ok());
    for node in [Json::True, Json::Null, Json::False] {
        assert_eq!(tree.replace_selected(node.clone()), Ok(()));
        assert_eq!(tree.selection(), root);
        assert_eq!(tree.get_selected().unwrap(), &node);
    }
}

#[test]
fn replace_selected_changes_rendered_text() {
    let (store, _root) = build_from_tree_literal(&sample_literal());
    let mut tree = EditableTree::from_tree(store);
    assert_eq!(tree.replace_selected(Json::False), Ok(()));
    assert_eq!(tree.to_text(FormatStyle::Compact), "false");
    assert_eq!(tree.to_text(FormatStyle::Pretty), "false");
}

#[test]
fn children_follow_display_order() {
    assert_eq!(Json::True.children(), Vec::<usize>::new());
    assert_eq!(Json::Array(vec![4, 2, 7]).children(), vec![4, 2, 7]);
    assert_eq!(
        Json::Object(vec![("a".to_string(), 3), ("b".to_string(), 1)]).children(),
        vec![3, 1]
    );
}
