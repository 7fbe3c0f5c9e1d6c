use treesome::sparse::{Arena, Node};

#[test]
fn sparse_root_and_child() {
    let mut tree = Node::root(42);
    let root = Arena::<i32>::ROOT;
    let child = Node::create_child(&mut tree, root, 43);
    assert_eq!(tree.node(root).children().len(), 1);
    let parent = tree.node(child).parent().unwrap();
    assert_eq!(tree.node(parent).value, 42);
    assert_eq!(tree.node(child).value, 43);
    assert_eq!(tree.node(root).children(), vec![child]);
}

#[test]
fn sparse_fresh_root_is_a_leaf_without_parent() {
    let tree = Node::root("stump");
    assert_eq!(tree.len(), 1);
    let root = tree.node(Arena::<&str>::ROOT);
    assert!(root.is_leaf());
    assert_eq!(root.parent(), None);
    assert_eq!(root.value, "stump");
    assert_eq!(*root.value(), "stump");
    assert_eq!(root.handle(), 0);
    assert!(root.children().is_empty());
}

#[test]
fn sparse_child_is_listed_once_by_its_parent() {
    let mut tree = Node::root(0u32);
    let mut handles = vec![Arena::<u32>::ROOT];
    for value in 1..20u32 {
        let parent = handles[(value as usize * 7) % handles.len()];
        let child = Node::create_child(&mut tree, parent, value);
        assert_eq!(child, handles.len());
        handles.push(child);
        assert_eq!(tree.node(child).parent(), Some(parent));
        assert_eq!(tree.node(child).handle(), child);
        assert_eq!(tree.node(child).value, value);
        assert!(tree.node(child).is_leaf());
        assert!(!tree.node(parent).is_leaf());
        let listed = tree.node(parent).children();
        assert_eq!(listed.iter().filter(|id| **id == child).count(), 1);
        assert_eq!(listed.last(), Some(&child));
    }
    assert_eq!(tree.len(), 20);
    for id in 1..tree.len() {
        let parent = tree.node(id).parent().unwrap();
        assert!(parent < id);
        let listed = tree.node(parent).children();
        assert_eq!(listed.iter().filter(|other| **other == id).count(), 1);
    }
    assert_eq!(tree.node(0).parent(), None);
}

#[test]
fn sparse_children_keep_creation_order() {
    let mut tree = Node::root('r');
    let a = Node::create_child(&mut tree, 0, 'a');
    let b = Node::create_child(&mut tree, 0, 'b');
    let c = Node::create_child(&mut tree, a, 'c');
    let d = Node::create_child(&mut tree, 0, 'd');
    assert_eq!((a, b, c, d), (1, 2, 3, 4));
    assert_eq!(tree.node(0).children(), vec![a, b, d]);
    assert_eq!(tree.node(a).children(), vec![c]);
    assert!(tree.node(b).is_leaf());
    assert_eq!(tree.node(c).parent(), Some(a));
    assert_eq!(tree.node(tree.node(c).parent().unwrap()).value, 'a');
    assert_eq!(tree.node(0).value, 'r');
    assert_eq!(tree.node(0).parent(), None);
}

#[test]
fn sparse_children_is_a_snapshot() {
    let mut tree = Node::root(1);
    let first = Node::create_child(&mut tree, 0, 2);
    let snapshot = tree.node(0).children();
    let second = Node::create_child(&mut tree, 0, 3);
    assert_eq!(snapshot, vec![first]);
    assert_eq!(tree.node(0).children(), vec![first, second]);
}
