use crate::layout::{
    heap_child, lemma_heap_child_of_parent, lemma_parent_fixes_slot, lemma_parent_of_heap_child,
    parent_of, same_parent, valid_slot, LEAF_NODE, ROOT_NODE,
};
use crate::sized::structs::Array;
use std::ops::Index;
use vstd::prelude::*;
use vstd::std_specs::convert::FromSpecImpl;

verus! {

/// Marks a child slot that holds no child.
pub const LEAF_NODE_MARK: isize = LEAF_NODE;

/// A binary tree stored as three bounded sequences of length `N`, suitable
/// for dense trees in the heap layout: the children of node `i` sit at
/// `2i + 1` and `2i + 2`, and node `0` is the root.
#[derive(Eq, PartialEq, Debug)]
pub struct BTree<T, const N: usize> {
    pub l_nodes: Array<isize, N>,
    pub r_nodes: Array<isize, N>,
    pub values: Array<T, N>,
}

/// The ids of a node's two children; [`LEAF_NODE_MARK`] stands for a missing
/// child.
#[derive(Eq, PartialEq, Debug, Structural)]
pub struct Children {
    pub left: isize,
    pub right: isize,
}

impl From<(isize, isize)> for Children {
    fn from(value: (isize, isize)) -> (children: Self) {
        Children { left: value.0, right: value.1 }
    }
}

impl FromSpecImpl<(isize, isize)> for Children {
    open spec fn obeys_from_spec() -> bool {
        true
    }

    open spec fn from_spec(value: (isize, isize)) -> Self {
        Children { left: value.0, right: value.1 }
    }
}

impl<T, const N: usize> BTree<T, N> {
    /// Whether every child slot holds the sentinel or the id of a node of
    /// this tree. Construction does not check it: it is the caller's to
    /// keep.
    pub open spec fn well_formed(&self) -> bool {
        &&& forall|i: int| 0 <= i < N ==> valid_slot(#[trigger] self.l_nodes@[i], N)
        &&& forall|i: int| 0 <= i < N ==> valid_slot(#[trigger] self.r_nodes@[i], N)
    }

    /// The children of node `id`, sentinels included.
    pub open spec fn spec_children(&self, id: int) -> Children
        recommends
            0 <= id < N,
    {
        Children { left: self.l_nodes@[id], right: self.r_nodes@[id] }
    }

    /// Whether node `id` has no child at all.
    pub open spec fn spec_is_leaf(&self, id: int) -> bool
        recommends
            0 <= id < N,
    {
        self.l_nodes@[id] == LEAF_NODE_MARK && self.r_nodes@[id] == LEAF_NODE_MARK
    }

    /// The parent of node `id`: none for the root and for every id that is
    /// not a node of the tree.
    pub open spec fn spec_parent(&self, id: int) -> Option<int> {
        parent_of(id, N as int, 2)
    }

    /// Builds a tree from its array representation. The shape is not
    /// checked.
    pub fn new(l_nodes: [isize; N], r_nodes: [isize; N], values: [T; N]) -> (tree: Self)
        ensures
            tree.l_nodes@ == l_nodes@,
            tree.r_nodes@ == r_nodes@,
            tree.values@ == values@,
    {
        Self {
            l_nodes: Array::wrap(l_nodes),
            r_nodes: Array::wrap(r_nodes),
            values: Array::wrap(values),
        }
    }

    /// True if `node_id` is a leaf node (no children), false otherwise.
    pub fn is_leaf_node(&self, node_id: usize) -> (leaf: bool)
        requires
            node_id < N,
        ensures
            leaf == self.spec_is_leaf(node_id as int),
    {
        self.l_nodes[node_id] == LEAF_NODE_MARK && self.r_nodes[node_id] == LEAF_NODE_MARK
    }

    /// Returns the left and right child of a node. A value of `-1` means no
    /// child in that direction.
    pub fn children(&self, node_id: usize) -> (children: Children)
        requires
            node_id < N,
        ensures
            children == self.spec_children(node_id as int),
    {
        Children { left: self.l_nodes[node_id], right: self.r_nodes[node_id] }
    }

    /// Returns the id of the parent of `node_id`, if it has one: the root
    /// and ids outside the tree have none. The lookup relies on the heap
    /// layout.
    pub fn parent(&self, node_id: isize) -> (parent: Option<isize>)
        ensures
            same_parent(parent, self.spec_parent(node_id as int)),
            parent is Some ==> 0 <= parent.unwrap() < node_id,
    {
        if node_id <= ROOT_NODE || node_id as usize >= self.values.len() {
            return None;
        }
        proof {
            lemma_heap_child_of_parent(node_id as int, 2);
        }
        Some((node_id - 1) / 2)
    }

    /// A node is a leaf exactly when both entries of its children are the
    /// sentinel.
    pub proof fn lemma_leaf_iff_no_children(&self, id: int)
        requires
            0 <= id < N,
        ensures
            self.spec_is_leaf(id) <==> (self.spec_children(id).left == LEAF_NODE_MARK
                && self.spec_children(id).right == LEAF_NODE_MARK),
    {
    }

    /// The root has no parent, and neither has an id that is not a node of
    /// the tree.
    pub proof fn lemma_no_parent_outside(&self, id: int)
        requires
            id <= 0 || id >= N,
        ensures
            self.spec_parent(id) is None,
    {
    }

    /// Where the left child of node `id` sits at one of the two positions
    /// that the heap layout gives to the children of `id`, the parent of
    /// that child is `id`.
    pub proof fn lemma_parent_of_left_child(&self, id: int)
        requires
            0 <= id < N,
            self.l_nodes@[id] < N,
            self.l_nodes@[id] == heap_child(id, 2, 0) || self.l_nodes@[id] == heap_child(id, 2, 1),
        ensures
            self.spec_parent(self.l_nodes@[id] as int) == Some(id),
    {
        lemma_parent_of_heap_child(id, 2, 0);
        lemma_parent_of_heap_child(id, 2, 1);
    }

    /// Where the right child of node `id` sits at one of the two positions
    /// that the heap layout gives to the children of `id`, the parent of
    /// that child is `id`.
    pub proof fn lemma_parent_of_right_child(&self, id: int)
        requires
            0 <= id < N,
            self.r_nodes@[id] < N,
            self.r_nodes@[id] == heap_child(id, 2, 0) || self.r_nodes@[id] == heap_child(id, 2, 1),
        ensures
            self.spec_parent(self.r_nodes@[id] as int) == Some(id),
    {
        lemma_parent_of_heap_child(id, 2, 0);
        lemma_parent_of_heap_child(id, 2, 1);
    }

    /// A node whose parent is `id` sits at one of the two positions that
    /// the heap layout gives to the children of `id`: elsewhere the parent
    /// of a child is not the node that lists it.
    pub proof fn lemma_parent_fixes_position(&self, id: int, child: int)
        requires
            self.spec_parent(child) == Some(id),
        ensures
            0 < child < N,
            child == heap_child(id, 2, 0) || child == heap_child(id, 2, 1),
    {
        lemma_parent_fixes_slot(child, 2, id);
    }
}

impl<T, const N: usize> Index<usize> for BTree<T, N> {
    type Output = T;

    /// The value of node `index`.
    fn index(&self, index: usize) -> (value: &T)
        ensures
            *value == self.values@[index as int],
    {
        &self.values[index]
    }
}

impl<T, const N: usize> vstd::std_specs::core::IndexSpecImpl<usize> for BTree<T, N> {
    open spec fn index_req(&self, index: &usize) -> bool {
        *index < N
    }
}

/// Walks a binary tree node by node: from the root towards the leaves, and
/// back.
///
/// A walker is a view of a tree with one node id of state, cheap to copy.
/// It is not meant to be shared between threads.
#[derive(Debug)]
pub struct Walker<'a, T, const N: usize> {
    tree: &'a BTree<T, N>,
    curr_node_id: isize,
}

impl<'a, T, const N: usize> Clone for Walker<'a, T, N> {
    fn clone(&self) -> (copy: Self)
        ensures
            copy == *self,
    {
        *self
    }
}

impl<'a, T, const N: usize> Copy for Walker<'a, T, N> {

}

impl<'a, T, const N: usize> Walker<'a, T, N> {
    /// The walker stays on a node of a well-formed tree.
    #[verifier::type_invariant]
    closed spec fn on_a_node(&self) -> bool {
        self.tree.well_formed() && 0 <= self.curr_node_id < N
    }

    /// The tree that is walked.
    pub closed spec fn tree(&self) -> &'a BTree<T, N> {
        self.tree
    }

    /// The id of the node the walker stands on.
    pub closed spec fn position(&self) -> isize {
        self.curr_node_id
    }

    /// What a step to the child in `slot` does: with the sentinel the
    /// walker stays and nothing is returned; otherwise it stands on the
    /// child and the child's value is returned.
    pub open spec fn stepped(before: &Self, slot: isize, after: &Self, value: Option<&T>) -> bool {
        &&& after.tree() == before.tree()
        &&& if slot == LEAF_NODE_MARK {
            after.position() == before.position() && value is None
        } else {
            after.position() == slot && value == Some(&before.tree().values@[slot as int])
        }
    }

    /// A walker on the root of `tree`. The tree must have a root, and its
    /// child slots must hold the sentinel or ids of its nodes.
    pub fn for_tree(tree: &'a BTree<T, N>) -> (walker: Self)
        requires
            N > 0,
            tree.well_formed(),
        ensures
            walker.tree() == tree,
            walker.position() == ROOT_NODE,
    {
        Self { tree, curr_node_id: 0 }
    }

    /// The id of the node the walker stands on: always a node of the tree.
    pub fn current(&self) -> (id: isize)
        ensures
            id == self.position(),
            0 <= id < N,
    {
        proof {
            use_type_invariant(self);
        }
        self.curr_node_id
    }

    /// Visits the right child of the current node and returns its value, if
    /// it exists.
    pub fn go_right(&mut self) -> (value: Option<&T>)
        ensures
            Self::stepped(
                old(self),
                old(self).tree().r_nodes@[old(self).position() as int],
                final(self),
                value,
            ),
    {
        proof {
            use_type_invariant(&*self);
        }
        let right_child_id: isize = self.tree.r_nodes[self.curr_node_id as usize];
        if right_child_id != LEAF_NODE_MARK {
            self.curr_node_id = right_child_id;
            Some(&self.tree.values[right_child_id as usize])
        } else {
            None
        }
    }

    /// Visits the left child of the current node and returns its value, if
    /// it exists.
    pub fn go_left(&mut self) -> (value: Option<&T>)
        ensures
            Self::stepped(
                old(self),
                old(self).tree().l_nodes@[old(self).position() as int],
                final(self),
                value,
            ),
    {
        proof {
            use_type_invariant(&*self);
        }
        let left_child_id: isize = self.tree.l_nodes[self.curr_node_id as usize];
        if left_child_id != LEAF_NODE_MARK {
            self.curr_node_id = left_child_id;
            Some(&self.tree.values[left_child_id as usize])
        } else {
            None
        }
    }

    /// Goes back to the parent of the current node and returns its value,
    /// if it exists. On the root the walker stays where it is and nothing
    /// is returned.
    pub fn go_parent(&mut self) -> (value: Option<&T>)
        ensures
            final(self).tree() == old(self).tree(),
            (match old(self).tree().spec_parent(old(self).position() as int) {
                Some(parent) => final(self).position() == parent && value == Some(
                    &old(self).tree().values@[parent],
                ),
                None => final(self).position() == old(self).position() && value is None,
            }),
            old(self).position() == ROOT_NODE <==> value is None,
    {
        proof {
            use_type_invariant(&*self);
        }
        match self.tree.parent(self.curr_node_id) {
            Some(parent) => {
                self.curr_node_id = parent;
                Some(&self.tree.values[parent as usize])
            },
            None => None,
        }
    }
}

} // verus!
