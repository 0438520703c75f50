use logman::pane_tree::{Axis, PaneNode, PaneTree, HALF, MIN_SPLIT_RATIO, WHOLE};

/// Panes 1, 2 and 3, showing the sessions 10, 20 and 30.
fn three() -> PaneTree {
    let mut tree = PaneTree::single(1, 10);
    assert!(tree.split(1, Axis::Horizontal, 100, 2, 20));
    assert!(tree.split(2, Axis::Vertical, 101, 3, 30));
    tree
}

fn ids(tree: &PaneTree) -> Vec<u64> {
    tree.leaves().into_iter().map(|(id, _)| id).collect()
}

#[test]
fn a_new_pane_comes_right_behind_the_one_it_splits() {
    let mut tree = three();
    assert_eq!(ids(&tree), [1, 2, 3]);
    assert!(tree.split(1, Axis::Vertical, 102, 4, 40));
    assert_eq!(ids(&tree), [1, 4, 2, 3]);
    assert_eq!(tree.leaf_count(), 4);
    assert_eq!(tree.get(4), Some(40));
    assert_eq!(tree.get(9), None);
    assert!(!tree.split(9, Axis::Vertical, 103, 5, 50));
    assert_eq!(tree.leaf_count(), 4);
}

#[test]
fn a_sibling_grows_into_the_space() {
    let mut tree = three();
    assert_eq!(tree.remove(2), Some(20));
    assert_eq!(ids(&tree), [1, 3]);
    assert!(matches!(
        &tree.root,
        PaneNode::Split { id: 100, axis: Axis::Horizontal, second, .. }
            if matches!(**second, PaneNode::Leaf { id: 3, session: 30 })
    ));
    assert_eq!(tree.remove(9), None);
    assert_eq!(tree.remove(1), Some(10));
    assert_eq!(tree.remove(3), None);
    assert_eq!(tree.first_leaf(), (3, 30));
}

#[test]
fn closing_the_new_pane_gives_back_the_tree() {
    let mut tree = three();
    let before = format!("{tree:?}");
    tree.split(3, Axis::Horizontal, 102, 4, 40);
    assert_ne!(format!("{tree:?}"), before);
    tree.remove(4);
    assert_eq!(format!("{tree:?}"), before);
}

#[test]
fn focus_goes_round_both_ways() {
    let tree = three();
    assert_eq!(tree.next_leaf(1), Some(2));
    assert_eq!(tree.next_leaf(3), Some(1));
    assert_eq!(tree.prev_leaf(1), Some(3));
    assert_eq!(tree.prev_leaf(3), Some(2));
    assert_eq!(tree.next_leaf(9), None);
}

#[test]
fn a_whole_tree_can_be_merged_in() {
    let mut tree = PaneTree::single(7, 70);
    assert!(tree.merge_subtree(7, Axis::Vertical, 200, three()));
    assert_eq!(ids(&tree), [7, 1, 2, 3]);
    assert!(tree.contains(3));
    assert!(!tree.contains(9));
}

#[test]
fn a_divider_stops_short_of_the_edges() {
    let mut tree = three();
    assert!(matches!(tree.root, PaneNode::Split { ratio: HALF, .. }));
    assert!(tree.set_ratio(100, 0));
    assert!(matches!(tree.root, PaneNode::Split { ratio: MIN_SPLIT_RATIO, .. }));
    assert!(tree.set_ratio(100, WHOLE));
    assert!(matches!(tree.root, PaneNode::Split { ratio: 900_000, .. }));
    assert!(tree.set_ratio(100, 250_000));
    assert!(matches!(tree.root, PaneNode::Split { ratio: 250_000, .. }));
    assert!(!tree.set_ratio(999, 250_000));
    assert_eq!(ids(&tree), [1, 2, 3]);
}
