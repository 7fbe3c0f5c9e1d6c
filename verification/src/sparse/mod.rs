use vstd::prelude::*;

verus! {

/// A node of a growable, non-shrinkable n-ary tree that can be walked both
/// ways. Suitable for sparse trees.
///
/// The nodes of one tree live in an [`Arena`] and are addressed by handles:
/// a node's handle is its index in the arena, known before it has any
/// child. A node holds its parent's handle and the handles of its children,
/// so no link keeps another node alive and none can form a cycle.
///
/// ## Node detachment/deletion
/// A node cannot be detached once it is linked by `create_child`. To delete
/// nodes, walk the tree and build a new one from the nodes to keep; or do
/// not create a child before it is certain to belong to the tree.
pub struct Node<T> {
    parent: Option<usize>,
    children: Vec<usize>,
    pub value: T,
    this: usize,
}

/// The owner of all nodes of one sparse tree. The root has handle
/// [`Arena::ROOT`].
pub struct Arena<T> {
    nodes: Vec<Node<T>>,
}

/// How often `id` occurs in `ids`.
pub open spec fn occurrences(ids: Seq<usize>, id: usize) -> nat
    decreases ids.len(),
{
    if ids.len() == 0 {
        0
    } else {
        occurrences(ids.drop_last(), id) + if ids.last() == id {
            1nat
        } else {
            0nat
        }
    }
}

/// Appending a handle adds one occurrence of that handle and none of any
/// other.
pub proof fn lemma_occurrences_push(ids: Seq<usize>, added: usize, id: usize)
    ensures
        occurrences(ids.push(added), id) == occurrences(ids, id) + (if added == id {
            1nat
        } else {
            0nat
        }),
{
    assert(ids.push(added).drop_last() =~= ids);
}

/// A handle above every listed handle is not listed.
pub proof fn lemma_occurrences_above(ids: Seq<usize>, id: usize)
    requires
        forall|k: int| 0 <= k < ids.len() ==> ids[k] < id,
    ensures
        occurrences(ids, id) == 0,
    decreases ids.len(),
{
    if ids.len() > 0 {
        lemma_occurrences_above(ids.drop_last(), id);
    }
}

impl<T> Node<T> {
    /// The handle of the node's parent; the root has none.
    pub closed spec fn spec_parent(&self) -> Option<usize> {
        self.parent
    }

    /// The handles of the node's children, in the order of their creation.
    pub closed spec fn spec_children(&self) -> Seq<usize> {
        self.children@
    }

    /// The node's own handle.
    pub closed spec fn spec_handle(&self) -> usize {
        self.this
    }

    /// The value that the node holds.
    pub closed spec fn spec_value(&self) -> T {
        self.value
    }

    /// Whether the node has no children.
    pub open spec fn spec_is_leaf(&self) -> bool {
        self.spec_children().len() == 0
    }

    /// Starts a new tree: an arena that holds a root with `value`, with no
    /// parent and no children.
    pub fn root(value: T) -> (tree: Arena<T>)
        ensures
            tree.well_formed(),
            tree.nodes().len() == 1,
            tree.nodes()[0].spec_value() == value,
            tree.nodes()[0].spec_is_leaf(),
            tree.nodes()[0].spec_parent() is None,
    {
        let mut nodes: Vec<Node<T>> = Vec::new();
        nodes.push(Node { parent: None, children: Vec::new(), value, this: 0 });
        Arena { nodes }
    }

    /// Creates a new node with `value` as the last child of the node
    /// `parent`, and returns its handle. No other link of the tree changes.
    pub fn create_child(tree: &mut Arena<T>, parent: usize, value: T) -> (child: usize)
        requires
            old(tree).well_formed(),
            parent < old(tree).nodes().len(),
        ensures
            final(tree).well_formed(),
            old(tree).grown_by(final(tree), parent, value, child),
            occurrences(final(tree).nodes()[parent as int].spec_children(), child) == 1,
    {
        let child: usize = tree.nodes.len();
        let ghost before = tree.nodes();
        tree.nodes[parent].children.push(child);
        tree.nodes.push(Node { parent: Some(parent), children: Vec::new(), value, this: child });
        proof {
            let after = tree.nodes();
            let listed = before[parent as int].spec_children();
            assert forall|k: int| 0 <= k < listed.len() implies listed[k] < child by {
                assert(old(tree).links_back(parent as int, listed[k]));
            }
            lemma_occurrences_above(listed, child);
            lemma_occurrences_push(listed, child, child);
            assert forall|i: int| 0 < i < after.len() implies tree.linked_to_parent(i) by {
                if i < child {
                    assert(old(tree).linked_to_parent(i));
                    let above = before[i].spec_parent().unwrap();
                    if above == parent {
                        lemma_occurrences_push(listed, child, i as usize);
                    }
                }
            }
            assert forall|i: int, k: int|
                0 <= i < after.len() && 0 <= k < after[i].spec_children().len()
                implies tree.links_back(i, #[trigger] after[i].spec_children()[k]) by {
                if i != parent || k < listed.len() {
                    assert(old(tree).links_back(i, before[i].spec_children()[k]));
                }
            }
        }
        child
    }

    /// Whether the node has no children.
    pub fn is_leaf(&self) -> (leaf: bool)
        ensures
            leaf == self.spec_is_leaf(),
    {
        self.children.len() == 0
    }

    /// Returns the handle of the node's parent, if it has one.
    pub fn parent(&self) -> (parent: Option<usize>)
        ensures
            parent == self.spec_parent(),
    {
        self.parent
    }

    /// Returns a newly allocated vector of the handles of the node's
    /// current children. The vector does not reflect later changes.
    pub fn children(&self) -> (children: Vec<usize>)
        ensures
            children@ == self.spec_children(),
    {
        let mut children: Vec<usize> = Vec::new();
        let mut k: usize = 0;
        while k < self.children.len()
            invariant
                k <= self.children@.len(),
                children@ == self.children@.take(k as int),
            decreases self.children@.len() - k,
        {
            children.push(self.children[k]);
            assert(self.children@.take(k + 1) =~= self.children@.take(k as int).push(
                self.children@[k as int],
            ));
            k += 1;
        }
        assert(self.children@.take(k as int) =~= self.children@);
        children
    }

    /// Returns the value that the node holds.
    pub fn value(&self) -> (value: &T)
        ensures
            *value == self.spec_value(),
    {
        &self.value
    }

    /// Returns the node's own handle.
    pub fn handle(&self) -> (handle: usize)
        ensures
            handle == self.spec_handle(),
    {
        self.this
    }
}

impl<T> Arena<T> {
    /// The handle of the root.
    pub const ROOT: usize = 0;

    /// The nodes, by handle.
    pub closed spec fn nodes(&self) -> Seq<Node<T>> {
        self.nodes@
    }

    /// Whether the links of the tree agree with each other: the root comes
    /// first and has no parent; every node knows its own handle; every
    /// other node has a parent that was created before it and lists it
    /// exactly once; and every listed child names the node that lists it
    /// as its parent.
    pub open spec fn well_formed(&self) -> bool {
        &&& self.nodes().len() >= 1
        &&& self.nodes()[0].spec_parent() is None
        &&& forall|i: int|
            0 <= i < self.nodes().len() ==> (#[trigger] self.nodes()[i]).spec_handle() == i
        &&& forall|i: int|
            0 < i < self.nodes().len() ==> self.linked_to_parent(i)
        &&& forall|i: int, k: int|
            0 <= i < self.nodes().len() && 0 <= k < self.nodes()[i].spec_children().len()
                ==> self.links_back(i, #[trigger] self.nodes()[i].spec_children()[k])
    }

    /// Whether node `id` has a parent that comes before it and lists it
    /// exactly once among its children.
    pub open spec fn linked_to_parent(&self, id: int) -> bool {
        match self.nodes()[id].spec_parent() {
            Some(parent) => parent < id && occurrences(
                self.nodes()[parent as int].spec_children(),
                id as usize,
            ) == 1,
            None => false,
        }
    }

    /// Whether `child`, listed by node `id`, is a later node whose parent
    /// is `id`.
    pub open spec fn links_back(&self, id: int, child: usize) -> bool {
        id < child < self.nodes().len() && self.nodes()[child as int].spec_parent() == Some(
            id as usize,
        )
    }

    /// Whether `after` is this tree with one more node: the new node has
    /// the handle `child`, the next free one, holds `value`, has no
    /// children and names `parent` as its parent; `parent` lists it as its
    /// last child and is otherwise as before; and every other node is as it
    /// was.
    pub open spec fn grown_by(&self, after: &Self, parent: usize, value: T, child: usize) -> bool {
        let was = self.nodes()[parent as int];
        let now = after.nodes()[parent as int];
        let added = after.nodes()[child as int];
        &&& child == self.nodes().len()
        &&& after.nodes().len() == self.nodes().len() + 1
        &&& added.spec_value() == value
        &&& added.spec_parent() == Some(parent)
        &&& added.spec_is_leaf()
        &&& now.spec_children() == was.spec_children().push(child)
        &&& now.spec_value() == was.spec_value()
        &&& now.spec_parent() == was.spec_parent()
        &&& forall|i: int|
            0 <= i < self.nodes().len() && i != parent ==> #[trigger] after.nodes()[i]
                == self.nodes()[i]
    }

    /// Every node but the root has a parent that was created before it and
    /// lists it exactly once among its children.
    pub proof fn lemma_child_listed_once(&self, child: int)
        requires
            self.well_formed(),
            0 < child < self.nodes().len(),
        ensures
            self.nodes()[child].spec_parent() is Some,
            self.nodes()[child].spec_parent().unwrap() < child,
            occurrences(
                self.nodes()[self.nodes()[child].spec_parent().unwrap() as int].spec_children(),
                child as usize,
            ) == 1,
    {
        assert(self.linked_to_parent(child));
    }

    /// Every child that a node lists is a node of the tree, created after
    /// the node that lists it, and names that node as its parent.
    pub proof fn lemma_listed_child_has_parent(&self, id: int, k: int)
        requires
            self.well_formed(),
            0 <= id < self.nodes().len(),
            0 <= k < self.nodes()[id].spec_children().len(),
        ensures
            id < self.nodes()[id].spec_children()[k] < self.nodes().len(),
            self.nodes()[self.nodes()[id].spec_children()[k] as int].spec_parent() == Some(
                id as usize,
            ),
    {
        assert(self.links_back(id, self.nodes()[id].spec_children()[k]));
    }

    /// The number of nodes.
    pub fn len(&self) -> (len: usize)
        ensures
            len == self.nodes().len(),
    {
        self.nodes.len()
    }

    /// The node with the handle `id`.
    pub fn node(&self, id: usize) -> (node: &Node<T>)
        requires
            id < self.nodes().len(),
        ensures
            *node == self.nodes()[id as int],
    {
        &self.nodes[id]
    }
}

} // verus!
