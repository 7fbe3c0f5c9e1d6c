use crate::layout::{
    heap_child, lemma_heap_child_of_parent, lemma_parent_of_heap_child, parent_of, same_parent,
    LEAF_NODE, ROOT_NODE,
};
use crate::sized::structs::Array;
use std::ops::Index;
use vstd::prelude::*;

verus! {

/// A k-ary tree of `N` nodes with `M` child slots each, stored as `M`
/// bounded sequences of child ids and one of values. Suitable for dense
/// trees in the heap layout: the `m`-th child of node `i` sits at
/// `i * M + 1 + m`, and node `0` is the root.
#[derive(Eq, PartialEq, Debug)]
pub struct Tree<T, const M: usize, const N: usize> {
    nodes: Array<Array<isize, N>, M>,
    values: Array<T, N>,
}

impl<T, const M: usize, const N: usize> Tree<T, M, N> {
    /// The child ids: `M` rows of `N` slots each, row `m` holding the
    /// `m`-th child of every node.
    pub closed spec fn slots(&self) -> Seq<Seq<isize>> {
        Seq::new(M as nat, |m: int| self.nodes@[m]@)
    }

    /// The values of the nodes, by node id.
    pub closed spec fn values(&self) -> Seq<T> {
        self.values@
    }

    /// The children of node `id`, sentinels included.
    pub open spec fn spec_children(&self, id: int) -> Seq<isize>
        recommends
            0 <= id < N,
    {
        Seq::new(M as nat, |m: int| self.slots()[m][id])
    }

    /// Whether node `id` has no child at all.
    pub open spec fn spec_is_leaf(&self, id: int) -> bool
        recommends
            0 <= id < N,
    {
        forall|m: int| 0 <= m < M ==> (#[trigger] self.slots()[m])[id] == LEAF_NODE
    }

    /// The parent of node `id`: none for the root and for every id that is
    /// not a node of the tree.
    pub open spec fn spec_parent(&self, id: int) -> Option<int>
        recommends
            M > 0,
    {
        parent_of(id, N as int, M as int)
    }

    /// A tree holds `M` rows of child ids, and `N` slots in each row as it
    /// holds `N` values.
    pub proof fn lemma_shape(&self)
        ensures
            self.slots().len() == M,
            self.values().len() == N,
            forall|m: int| 0 <= m < M ==> (#[trigger] self.slots()[m]).len() == N,
    {
        self.values.lemma_len();
        assert forall|m: int| 0 <= m < M implies (#[trigger] self.slots()[m]).len() == N by {
            self.nodes@[m].lemma_len();
        }
    }

    /// Builds a tree from bounded sequences. The shape is not checked.
    pub fn from_arrays(nodes: Array<Array<isize, N>, M>, values: Array<T, N>) -> (tree: Self)
        ensures
            tree.slots().len() == M,
            forall|m: int| 0 <= m < M ==> #[trigger] tree.slots()[m] == nodes@[m]@,
            tree.values() == values@,
    {
        Self { nodes, values }
    }

    /// Takes the tree apart into its bounded sequences: what
    /// [`Tree::from_arrays`] was given.
    pub fn into_arrays(self) -> (parts: (Array<Array<isize, N>, M>, Array<T, N>))
        ensures
            forall|m: int| 0 <= m < M ==> #[trigger] self.slots()[m] == parts.0@[m]@,
            parts.1@ == self.values(),
    {
        (self.nodes, self.values)
    }

    /// Builds a tree from plain arrays: row `m` of `nodes` holds the `m`-th
    /// child of every node. The shape is not checked.
    pub fn new(nodes: [[isize; N]; M], values: [T; N]) -> (tree: Self)
        ensures
            tree.slots().len() == M,
            forall|m: int| 0 <= m < M ==> #[trigger] tree.slots()[m] == nodes@[m]@,
            tree.values() == values@,
    {
        let mut node_indices: [Array<isize, N>; M] = [Array::wrap([LEAF_NODE; N]); M];
        let mut m: usize = 0;
        while m < M
            invariant
                m <= M,
                forall|k: int| 0 <= k < m ==> (#[trigger] node_indices@[k])@ == nodes@[k]@,
            decreases M - m,
        {
            node_indices[m] = Array::wrap(nodes[m]);
            m += 1;
        }
        Self { nodes: Array::wrap(node_indices), values: Array::wrap(values) }
    }

    /// True if `node_id` is a leaf node (no children), false otherwise.
    pub fn is_leaf_node(&self, node_id: usize) -> (leaf: bool)
        requires
            node_id < N,
        ensures
            leaf == self.spec_is_leaf(node_id as int),
    {
        let mut m: usize = 0;
        while m < M
            invariant
                m <= M,
                node_id < N,
                self.slots().len() == M,
                forall|k: int|
                    0 <= k < m ==> (#[trigger] self.slots()[k])[node_id as int] == LEAF_NODE,
            decreases M - m,
        {
            if self.nodes[m][node_id] != LEAF_NODE {
                assert(self.slots()[m as int][node_id as int] != LEAF_NODE);
                return false;
            }
            m += 1;
        }
        true
    }

    /// Returns the `M` children of a node, with [`LEAF_NODE`] in the place
    /// of every missing child.
    pub fn children(&self, node_id: usize) -> (children: [isize; M])
        requires
            node_id < N,
        ensures
            children@ == self.spec_children(node_id as int),
    {
        let mut children: [isize; M] = [0_isize; M];
        let mut m: usize = 0;
        while m < M
            invariant
                m <= M,
                node_id < N,
                forall|k: int|
                    0 <= k < m ==> #[trigger] children@[k] == self.slots()[k][node_id as int],
            decreases M - m,
        {
            children[m] = self.nodes[m][node_id];
            m += 1;
        }
        assert(children@ =~= self.spec_children(node_id as int));
        children
    }

    /// Returns the id of the parent of `node_id`, if it has one: the root
    /// and ids outside the tree have none. The lookup relies on the heap
    /// layout. A tree whose nodes have no child slots has no parents to
    /// look up.
    pub fn parent(&self, node_id: isize) -> (parent: Option<isize>)
        requires
            M > 0 || node_id <= ROOT_NODE || node_id >= N,
        ensures
            same_parent(parent, self.spec_parent(node_id as int)),
            parent is Some ==> 0 <= parent.unwrap() < node_id,
    {
        if node_id <= ROOT_NODE || node_id as usize >= self.values.len() {
            return None;
        }
        proof {
            lemma_heap_child_of_parent(node_id as int, M as int);
        }
        let before: usize = (node_id - 1) as usize;
        Some((before / M) as isize)
    }

    /// A node is a leaf exactly when every entry of its children is the
    /// sentinel.
    pub proof fn lemma_leaf_iff_no_children(&self, id: int)
        requires
            0 <= id < N,
        ensures
            self.spec_is_leaf(id) <==> (forall|m: int|
                0 <= m < M ==> #[trigger] self.spec_children(id)[m] == LEAF_NODE),
    {
        if self.spec_is_leaf(id) {
            assert forall|m: int| 0 <= m < M implies #[trigger] self.spec_children(id)[m]
                == LEAF_NODE by {
                assert(self.slots()[m][id] == LEAF_NODE);
            }
        }
        if forall|m: int| 0 <= m < M ==> #[trigger] self.spec_children(id)[m] == LEAF_NODE {
            assert forall|m: int| 0 <= m < M implies (#[trigger] self.slots()[m])[id]
                == LEAF_NODE by {
                assert(self.spec_children(id)[m] == LEAF_NODE);
            }
        }
    }

    /// The root has no parent, and neither has an id that is not a node of
    /// the tree.
    pub proof fn lemma_no_parent_outside(&self, id: int)
        requires
            id <= 0 || id >= N,
        ensures
            self.spec_parent(id) is None,
    {
    }

    /// Where the `m`-th child of node `id` sits at the position that the
    /// heap layout gives it, the parent of that child is `id`.
    pub proof fn lemma_parent_of_child(&self, id: int, m: int)
        requires
            0 <= id < N,
            0 <= m < M,
            self.slots()[m][id] == heap_child(id, M as int, m),
            self.slots()[m][id] < N,
        ensures
            self.spec_parent(self.slots()[m][id] as int) == Some(id),
    {
        lemma_parent_of_heap_child(id, M as int, m);
        assert(id * M >= 0) by (nonlinear_arith)
            requires
                id >= 0,
                M >= 0,
        ;
    }
}

impl<T, const M: usize, const N: usize> Index<usize> for Tree<T, M, N> {
    type Output = T;

    fn index(&self, index: usize) -> (value: &T)
        ensures
            *value == self.values()[index as int],
    {
        &self.values[index]
    }
}

impl<T, const M: usize, const N: usize> vstd::std_specs::core::IndexSpecImpl<usize> for Tree<T, M, N> {
    open spec fn index_req(&self, index: &usize) -> bool {
        *index < N
    }
}

} // verus!
