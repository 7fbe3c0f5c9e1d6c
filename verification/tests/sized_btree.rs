use treesome::sized::btree::{Children, LEAF_NODE_MARK};
use treesome::sized::{BTree, Walker, ROOT_NODE};

#[test]
fn walker() {
    let left = [1, 3, 5, -1, -1, -1, -1];
    let right = [2, 4, 6, -1, -1, -1, -1];
    let values = [10, 51, 36, 90, 32, 16, 5];
    let tree = BTree::new(left, right, values);

    let mut walker = Walker::for_tree(&tree);
    let right_child = walker.go_right();
    assert_eq!(right_child, Some(&tree.values[2]));

    let left_child = walker.go_left();
    assert_eq!(left_child, Some(&tree.values[5]));

    // Go back to the root node's right child
    let left_child = walker.go_parent();
    assert_eq!(left_child, Some(&tree.values[2]));
}

#[test]
fn parent() {
    let left = [1, 3, 5, -1, -1, -1, -1];
    let right = [2, 4, 6, -1, -1, -1, -1];
    let values = [10, 51, 36, 90, 32, 16, 5];
    let tree = BTree::new(left, right, values);

    // Root's parent
    assert_eq!(tree.parent(0), None);

    // Overflow - nonexistent node
    assert_eq!(tree.parent(values.len() as isize), None);

    // Valid use cases
    assert_eq!(tree.parent(1).unwrap(), ROOT_NODE);
    assert_eq!(tree.parent(3).unwrap(), 1);
    assert_eq!(tree.parent(4).unwrap(), 1);
    assert_eq!(tree.parent(5).unwrap(), 2);
    assert_eq!(tree.parent(6).unwrap(), 2);
}

#[test]
fn children() {
    let left = [1, 3, 5, -1, -1, -1, -1];
    let right = [2, 4, 6, -1, -1, -1, -1];
    let values = [10, 51, 36, 90, 32, 16, 5];
    let tree = BTree::new(left, right, values);
    assert_eq!(tree.children(0), (1, 2).into());
    assert_eq!(tree.children(2), (5, 6).into());
    assert_eq!(tree.children(6), (-1, -1).into());
}

#[test]
fn leaf_node() {
    let left = [1, 3, 5, -1, -1, -1, -1];
    let right = [2, 4, 6, -1, -1, -1, -1];
    let values = [10, 51, 36, 90, 32, 16, 5];
    let tree = BTree::new(left, right, values);
    assert!(!tree.is_leaf_node(0));
    assert!(tree.is_leaf_node(3));
}

#[test]
fn index() {
    let left = [1, 3, 5, -1, -1, -1, -1];
    let right = [2, 4, 6, -1, -1, -1, -1];
    let values = [10, 51, 36, 90, 32, 16, 5];
    let tree = BTree::new(left, right, values);
    assert_eq!(tree[0], 10);
    assert_eq!(tree[3], 90);
}

fn sized_sample() -> BTree<i32, 7> {
    BTree::new(
        [1, 3, 5, -1, -1, -1, -1],
        [2, 4, 6, -1, -1, -1, -1],
        [10, 51, 36, 90, 32, 16, 5],
    )
}

#[test]
fn sized_btree_seven_nodes() {
    let tree = sized_sample();
    assert_eq!(tree.children(0), Children { left: 1, right: 2 });
    assert_eq!(tree.parent(3), Some(1));
    assert_eq!(tree.parent(0), None);
    assert!(tree.is_leaf_node(3));
    assert_eq!(tree[3], 90);
}

#[test]
fn sized_btree_parent_of_each_child_is_the_node() {
    let tree = sized_sample();
    for id in 0..7usize {
        let children = tree.children(id);
        if children.left != LEAF_NODE_MARK {
            assert_eq!(tree.parent(children.left), Some(id as isize));
        }
        if children.right != LEAF_NODE_MARK {
            assert_eq!(tree.parent(children.right), Some(id as isize));
        }
    }
}

#[test]
fn sized_btree_parent_is_half_of_predecessor() {
    let tree = BTree::new([-1isize; 300], [-1isize; 300], [0u8; 300]);
    for id in 1..300isize {
        assert_eq!(tree.parent(id), Some((id - 1) / 2));
    }
    assert_eq!(tree.parent(127), Some(63));
    assert_eq!(tree.parent(254), Some(126));
    assert_eq!(tree.parent(255), Some(127));
}

#[test]
fn sized_btree_no_parent_for_root_and_outside() {
    let tree = sized_sample();
    assert_eq!(tree.parent(0), None);
    assert_eq!(tree.parent(7), None);
    assert_eq!(tree.parent(8), None);
    assert_eq!(tree.parent(isize::MAX), None);
    assert_eq!(tree.parent(-1), None);
    assert_eq!(tree.parent(isize::MIN), None);
    let empty: BTree<i32, 0> = BTree::new([], [], []);
    assert_eq!(empty.parent(0), None);
    assert_eq!(empty.parent(1), None);
}

#[test]
fn sized_btree_leaf_iff_both_children_missing() {
    let tree = BTree::new([1, -1, -1, -1], [2, 3, -1, -1], [0, 1, 2, 3]);
    for id in 0..4usize {
        let children = tree.children(id);
        assert_eq!(
            tree.is_leaf_node(id),
            children.left == LEAF_NODE_MARK && children.right == LEAF_NODE_MARK
        );
    }
    // One child only is no leaf.
    assert!(!tree.is_leaf_node(1));
    assert_eq!(tree.children(1), Children { left: -1, right: 3 });
}

#[test]
fn sized_btree_walker_stays_without_child_or_parent() {
    let tree = sized_sample();
    let mut walker = Walker::for_tree(&tree);
    assert_eq!(walker.current(), 0);
    assert_eq!(walker.go_parent(), None);
    assert_eq!(walker.current(), 0);
    assert_eq!(walker.go_left(), Some(&51));
    assert_eq!(walker.current(), 1);
    assert_eq!(walker.go_left(), Some(&90));
    assert_eq!(walker.current(), 3);
    assert_eq!(walker.go_left(), None);
    assert_eq!(walker.go_right(), None);
    assert_eq!(walker.current(), 3);
    assert_eq!(walker.go_parent(), Some(&51));
    assert_eq!(walker.go_right(), Some(&32));
    assert_eq!(walker.current(), 4);
    let copy = walker;
    assert_eq!(walker.go_parent(), Some(&51));
    assert_eq!(copy.current(), 4);
    assert_eq!(walker.clone().current(), 1);
}

#[test]
fn sized_btree_children_from_pair() {
    assert_eq!(Children::from((4, -1)), Children { left: 4, right: -1 });
}
