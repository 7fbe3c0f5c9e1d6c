//! The index arithmetic that the dense trees share: the sentinel, and the
//! heap layout in which the children of node `i` of a tree with `arity`
//! child slots sit at `i * arity + 1 + m`, for `m` below `arity`.

use vstd::prelude::*;

verus! {

/// Marks a child slot that holds no child.
pub const LEAF_NODE: isize = -1;

/// The id of the root node.
pub const ROOT_NODE: isize = 0;

/// Whether `slot` is the sentinel or the id of one of `len` nodes.
pub open spec fn valid_slot(slot: isize, len: usize) -> bool {
    slot == LEAF_NODE || 0 <= slot < len
}

/// The id at which the heap layout puts the `m`-th child of node `id`.
pub open spec fn heap_child(id: int, arity: int, m: int) -> int {
    id * arity + 1 + m
}

/// The parent of node `id` in the heap layout.
pub open spec fn heap_parent(id: int, arity: int) -> int
    recommends
        arity > 0,
{
    (id - 1) / arity
}

/// The parent of node `id` in a tree of `len` nodes: none for the root and
/// for every id that is not a node of the tree.
pub open spec fn parent_of(id: int, len: int, arity: int) -> Option<int>
    recommends
        arity > 0,
{
    if id <= 0 || id >= len {
        None
    } else {
        Some(heap_parent(id, arity))
    }
}

/// Whether the looked-up id `found` is the parent `expected`, absence
/// included.
pub open spec fn same_parent(found: Option<isize>, expected: Option<int>) -> bool {
    match found {
        Some(id) => expected == Some(id as int),
        None => expected is None,
    }
}

/// The parent of the `m`-th child of node `id` is `id`.
pub proof fn lemma_parent_of_heap_child(id: int, arity: int, m: int)
    requires
        id >= 0,
        0 <= m < arity,
    ensures
        heap_parent(heap_child(id, arity, m), arity) == id,
{
    assert((id * arity + m) / arity == id) by (nonlinear_arith)
        requires
            id >= 0,
            0 <= m < arity,
    ;
}

/// Every node but the root is one of the children that the heap layout
/// gives to its parent, and the parent comes before it.
pub proof fn lemma_heap_child_of_parent(child: int, arity: int)
    requires
        child >= 1,
        arity > 0,
    ensures
        0 <= heap_parent(child, arity) < child,
        0 <= child - heap_child(heap_parent(child, arity), arity, 0) < arity,
{
    let p = (child - 1) / arity;
    assert(0 <= p && p * arity <= child - 1 < p * arity + arity) by (nonlinear_arith)
        requires
            child >= 1,
            arity > 0,
            p == (child - 1) / arity,
    ;
    assert(p < child) by (nonlinear_arith)
        requires
            0 <= p,
            p * arity <= child - 1,
            arity > 0,
    ;
}

/// A node whose heap parent is `id` sits at one of the positions that the
/// heap layout gives to the children of `id`.
pub proof fn lemma_parent_fixes_slot(child: int, arity: int, id: int)
    requires
        child >= 1,
        arity > 0,
        heap_parent(child, arity) == id,
    ensures
        0 <= child - heap_child(id, arity, 0) < arity,
{
    lemma_heap_child_of_parent(child, arity);
}

} // verus!
