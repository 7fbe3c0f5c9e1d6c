use crate::layout::{
    heap_child, lemma_heap_child_of_parent, lemma_parent_of_heap_child, parent_of, same_parent,
    LEAF_NODE, ROOT_NODE,
};
use vstd::prelude::*;

verus! {

/// Why a tree could not be built.
#[derive(Debug, Clone)]
pub enum TreeError {
    /// A row of child ids does not have the length of the values. The
    /// message names the length that was expected.
    CorruptedTree(String),
}

/// A k-ary tree whose size is known only at run time, stored as rows of
/// child ids and one row of values, all of one length. Suitable for dense
/// trees in the heap layout: with `k` rows, the `m`-th child of node `i`
/// sits at `i * k + 1 + m`, and node `0` is the root.
#[derive(Debug, Clone, Eq, PartialEq)]
pub struct Tree<T> {
    nodes: Vec<Vec<isize>>,
    values: Vec<T>,
}

/// The rows of child ids as sequences.
pub open spec fn rows_of(nodes: Vec<Vec<isize>>) -> Seq<Seq<isize>> {
    Seq::new(nodes@.len(), |m: int| nodes@[m]@)
}

/// Whether every row has exactly `len` slots.
pub open spec fn rows_have_len(rows: Seq<Seq<isize>>, len: nat) -> bool {
    forall|m: int| 0 <= m < rows.len() ==> (#[trigger] rows[m]).len() == len
}

/// The character of the decimal digit `digit`.
pub open spec fn digit_char(digit: nat) -> char
    recommends
        digit < 10,
{
    ((digit + 48) as u8) as char
}

/// The decimal notation of `n`, without leading zeros.
pub open spec fn decimal(n: nat) -> Seq<char>
    decreases n,
{
    if n < 10 {
        seq![digit_char(n)]
    } else {
        decimal(n / 10).push(digit_char(n % 10))
    }
}

/// The message of the error for rows that do not have the `expected`
/// length.
pub open spec fn corrupted_tree_text(expected: nat) -> Seq<char> {
    "Tree nodes and values length do not match. Expected length: "@ + decimal(expected)
}

/// The error message for rows whose length is not `expected`, made by
/// `format!`: a fixed sentence, then `expected` in decimal notation.
#[verifier::external_body]
fn corrupted_tree_message(expected: usize) -> (message: String)
    ensures
        message@ == corrupted_tree_text(expected as nat),
{
    format!("Tree nodes and values length do not match. Expected length: {}", expected)
}

impl<T> Tree<T> {
    /// The child ids: row `m` holds the `m`-th child of every node.
    pub closed spec fn slots(&self) -> Seq<Seq<isize>> {
        rows_of(self.nodes)
    }

    /// The values of the nodes, by node id.
    pub closed spec fn values(&self) -> Seq<T> {
        self.values@
    }

    /// The number of nodes.
    pub open spec fn spec_len(&self) -> nat {
        self.values().len()
    }

    /// The number of child slots of each node.
    pub open spec fn arity(&self) -> nat {
        self.slots().len()
    }

    /// Whether every row of child ids has one slot for each node.
    /// Construction establishes it, and nothing changes a tree afterwards.
    pub open spec fn well_formed(&self) -> bool {
        rows_have_len(self.slots(), self.spec_len())
    }

    /// The children of node `id`, sentinels included.
    pub open spec fn spec_children(&self, id: int) -> Seq<isize>
        recommends
            0 <= id < self.spec_len(),
    {
        Seq::new(self.arity(), |m: int| self.slots()[m][id])
    }

    /// Whether node `id` has no child at all.
    pub open spec fn spec_is_leaf(&self, id: int) -> bool
        recommends
            0 <= id < self.spec_len(),
    {
        forall|m: int| 0 <= m < self.arity() ==> (#[trigger] self.slots()[m])[id] == LEAF_NODE
    }

    /// The parent of node `id`: none for the root and for every id that is
    /// not a node of the tree.
    pub open spec fn spec_parent(&self, id: int) -> Option<int>
        recommends
            self.arity() > 0,
    {
        parent_of(id, self.spec_len() as int, self.arity() as int)
    }

    /// Builds a tree from rows of child ids and the values. Every row must
    /// have the length of `values`: if one has not, nothing is built and
    /// the error names the expected length. The shape is not checked
    /// otherwise.
    pub fn new(nodes: Vec<Vec<isize>>, values: Vec<T>) -> (built: Result<Self, TreeError>)
        ensures
            built is Ok <==> rows_have_len(rows_of(nodes), values@.len()),
            (match built {
                Ok(tree) => tree.slots() == rows_of(nodes) && tree.values() == values@
                    && tree.well_formed(),
                Err(TreeError::CorruptedTree(message)) => message@ == corrupted_tree_text(
                    values@.len(),
                ),
            }),
    {
        let expected: usize = values.len();
        let mut m: usize = 0;
        while m < nodes.len()
            invariant
                m <= nodes@.len(),
                expected == values@.len(),
                forall|k: int| 0 <= k < m ==> (#[trigger] rows_of(nodes)[k]).len() == expected,
            decreases nodes@.len() - m,
        {
            if nodes[m].len() != expected {
                assert(rows_of(nodes)[m as int].len() != expected);
                return Err(TreeError::CorruptedTree(corrupted_tree_message(expected)));
            }
            assert(rows_of(nodes)[m as int].len() == expected);
            m += 1;
        }
        Ok(Self { nodes, values })
    }

    /// Takes the tree apart into the rows of child ids and the values: what
    /// [`Tree::new`] was given.
    pub fn into_parts(self) -> (parts: (Vec<Vec<isize>>, Vec<T>))
        ensures
            rows_of(parts.0) == self.slots(),
            parts.1@ == self.values(),
    {
        (self.nodes, self.values)
    }

    /// True if `node_id` is a leaf node (no children), false otherwise.
    pub fn is_leaf_node(&self, node_id: usize) -> (leaf: bool)
        requires
            self.well_formed(),
            node_id < self.spec_len(),
        ensures
            leaf == self.spec_is_leaf(node_id as int),
    {
        let mut m: usize = 0;
        while m < self.nodes.len()
            invariant
                m <= self.arity(),
                self.well_formed(),
                node_id < self.spec_len(),
                forall|k: int|
                    0 <= k < m ==> (#[trigger] self.slots()[k])[node_id as int] == LEAF_NODE,
            decreases self.arity() - m,
        {
            assert(self.slots()[m as int].len() == self.spec_len());
            if self.nodes[m][node_id] != LEAF_NODE {
                assert(self.slots()[m as int][node_id as int] != LEAF_NODE);
                return false;
            }
            m += 1;
        }
        true
    }

    /// Returns the children of a node, one for each row, with
    /// [`LEAF_NODE`] in the place of every missing child.
    pub fn children(&self, node_id: usize) -> (children: Vec<isize>)
        requires
            self.well_formed(),
            node_id < self.spec_len(),
        ensures
            children@ == self.spec_children(node_id as int),
    {
        let mut children: Vec<isize> = Vec::new();
        let mut m: usize = 0;
        while m < self.nodes.len()
            invariant
                m <= self.arity(),
                self.well_formed(),
                node_id < self.spec_len(),
                children@.len() == m,
                forall|k: int|
                    0 <= k < m ==> #[trigger] children@[k] == self.slots()[k][node_id as int],
            decreases self.arity() - m,
        {
            assert(self.slots()[m as int].len() == self.spec_len());
            children.push(self.nodes[m][node_id]);
            m += 1;
        }
        assert(children@ =~= self.spec_children(node_id as int));
        children
    }

    /// Returns the id of the parent of `node_id`, if it has one: the root
    /// and ids outside the tree have none. The lookup relies on the heap
    /// layout. A tree whose nodes have no child slots has no parents to
    /// look up.
    pub fn parent(&self, node_id: isize) -> (parent: Option<isize>)
        requires
            self.arity() > 0 || node_id <= ROOT_NODE || node_id >= self.spec_len(),
        ensures
            same_parent(parent, self.spec_parent(node_id as int)),
            parent is Some ==> 0 <= parent.unwrap() < node_id,
    {
        if node_id <= ROOT_NODE || node_id as usize >= self.values.len() {
            return None;
        }
        let tree_dimension: usize = self.nodes.len();
        proof {
            lemma_heap_child_of_parent(node_id as int, tree_dimension as int);
        }
        let before: usize = (node_id - 1) as usize;
        Some((before / tree_dimension) as isize)
    }

    /// A node is a leaf exactly when every entry of its children is the
    /// sentinel.
    pub proof fn lemma_leaf_iff_no_children(&self, id: int)
        requires
            0 <= id < self.spec_len(),
        ensures
            self.spec_is_leaf(id) <==> (forall|m: int|
                0 <= m < self.arity() ==> #[trigger] self.spec_children(id)[m] == LEAF_NODE),
    {
        if self.spec_is_leaf(id) {
            assert forall|m: int| 0 <= m < self.arity() implies #[trigger] self.spec_children(
                id,
            )[m] == LEAF_NODE by {
                assert(self.slots()[m][id] == LEAF_NODE);
            }
        }
        if forall|m: int|
            0 <= m < self.arity() ==> #[trigger] self.spec_children(id)[m] == LEAF_NODE {
            assert forall|m: int| 0 <= m < self.arity() implies (#[trigger] self.slots()[m])[id]
                == LEAF_NODE by {
                assert(self.spec_children(id)[m] == LEAF_NODE);
            }
        }
    }

    /// The root has no parent, and neither has an id that is not a node of
    /// the tree.
    pub proof fn lemma_no_parent_outside(&self, id: int)
        requires
            id <= 0 || id >= self.spec_len(),
        ensures
            self.spec_parent(id) is None,
    {
    }

    /// Where the `m`-th child of node `id` sits at the position that the
    /// heap layout gives it, the parent of that child is `id`.
    pub proof fn lemma_parent_of_child(&self, id: int, m: int)
        requires
            0 <= id < self.spec_len(),
            0 <= m < self.arity(),
            self.slots()[m][id] == heap_child(id, self.arity() as int, m),
            self.slots()[m][id] < self.spec_len(),
        ensures
            self.spec_parent(self.slots()[m][id] as int) == Some(id),
    {
        lemma_parent_of_heap_child(id, self.arity() as int, m);
        assert(id * self.arity() >= 0) by (nonlinear_arith)
            requires
                id >= 0,
                self.arity() >= 0,
        ;
    }
}

/// Rows are rejected exactly when at least one of them has a length other
/// than the expected one.
pub proof fn lemma_rejected_iff_some_row_differs(rows: Seq<Seq<isize>>, len: nat)
    ensures
        !rows_have_len(rows, len) <==> (exists|m: int|
            0 <= m < rows.len() && (#[trigger] rows[m]).len() != len),
{
}

} // verus!
