//! The window tree and the focus-target search.
//!
//! The window manager reports its layout as a tree of nodes; at most one
//! chain of nodes from the root down is marked focused. Given a direction,
//! the search walks the tree depth-first, and at the level where it meets the
//! focused child it picks the previous or next sibling, treating the sibling
//! list as circular.

use vstd::prelude::*;

verus! {

/// One node of the window layout: an opaque identifier, whether this node is
/// the focused one, and its children in the order the server reported them.
pub struct I3TreeNode {
    pub id: u64,
    pub focused: bool,
    pub nodes: Vec<I3TreeNode>,
}

/// Which sibling of the focused node should receive focus.
pub enum FocusTarget {
    Previous,
    Next,
}

/// The index of the sibling that receives focus when the focused child sits
/// at index `i` among `n` siblings: one step left or right, wrapping around
/// the ends of the list.
pub open spec fn spec_wrap_index(i: int, n: int, target: FocusTarget) -> int
    recommends
        0 <= i < n,
{
    match target {
        FocusTarget::Previous => (i + n - 1) % n,
        FocusTarget::Next => (i + 1) % n,
    }
}

/// The search over `node`'s children starting at child index `i`: the first
/// focused child decides the result by sibling wraparound; an unfocused child
/// is searched in depth first, and a result found below it is returned at
/// once, without looking at the siblings after it.
pub open spec fn spec_find_from(node: I3TreeNode, i: int, target: FocusTarget) -> Option<
    I3TreeNode,
>
    decreases node, node.nodes@.len() - i,
{
    if i < 0 || i >= node.nodes@.len() {
        None
    } else if node.nodes@[i].focused {
        Some(node.nodes@[spec_wrap_index(i, node.nodes@.len() as int, target)])
    } else {
        match spec_find_from(node.nodes@[i], 0, target) {
            Some(found) => Some(found),
            None => spec_find_from(node, i + 1, target),
        }
    }
}

/// The node that should receive focus, if any: the search started on the
/// whole tree.
pub open spec fn spec_find_target(node: I3TreeNode, target: FocusTarget) -> Option<I3TreeNode> {
    spec_find_from(node, 0, target)
}

/// Whether any node of this subtree, the root of the subtree included, is
/// marked focused.
pub open spec fn spec_subtree_has_focus(node: I3TreeNode) -> bool
    decreases node,
{
    node.focused || exists|i: int|
        0 <= i < node.nodes@.len() && spec_subtree_has_focus(#[trigger] node.nodes@[i])
}

/// Finds the node that should receive focus: the sibling, by wraparound, of
/// the focused child at the level where the focus chain passes. Returns
/// `None` exactly when no node anywhere below `node` is focused.
pub fn find_node_to_focus<'a>(node: &'a I3TreeNode, target: &FocusTarget) -> (r: Option<
    &'a I3TreeNode,
>)
    ensures
        match r {
            Some(found) => spec_find_target(*node, *target) == Some(*found),
            None => spec_find_target(*node, *target) is None,
        },
    decreases *node,
{
    let n: usize = node.nodes.len();
    let mut i: usize = 0;
    while i < n
        invariant
            n == node.nodes@.len(),
            i <= n,
            spec_find_from(*node, 0, *target) == spec_find_from(*node, i as int, *target),
        decreases n - i,
    {
        let child = &node.nodes[i];
        if child.focused {
            let index: usize = match target {
                FocusTarget::Previous => if i == 0 {
                    n - 1
                } else {
                    i - 1
                },
                FocusTarget::Next => if i + 1 == n {
                    0
                } else {
                    i + 1
                },
            };
            proof {
                match *target {
                    FocusTarget::Previous => {
                        if i == 0 {
                            vstd::arithmetic::div_mod::lemma_small_mod((n - 1) as nat, n as nat);
                        } else {
                            vstd::arithmetic::div_mod::lemma_mod_add_multiples_vanish(
                                i as int - 1,
                                n as int,
                            );
                            vstd::arithmetic::div_mod::lemma_small_mod((i - 1) as nat, n as nat);
                        }
                    },
                    FocusTarget::Next => {
                        if i + 1 == n {
                            vstd::arithmetic::div_mod::lemma_mod_self_0(n as int);
                        } else {
                            vstd::arithmetic::div_mod::lemma_small_mod((i + 1) as nat, n as nat);
                        }
                    },
                }
            }
            assert(index == spec_wrap_index(i as int, n as int, *target));
            return Some(&node.nodes[index]);
        } else {
            match find_node_to_focus(child, target) {
                Some(found) => {
                    return Some(found);
                },
                None => {
                    assert(spec_find_from(*node, i as int, *target) == spec_find_from(
                        *node,
                        i as int + 1,
                        *target,
                    ));
                },
            }
        }
        i = i + 1;
    }
    None
}

proof fn lemma_flat_scan(node: I3TreeNode, i: int, k: int, target: FocusTarget)
    requires
        0 <= i <= k < node.nodes@.len(),
        forall|j: int| 0 <= j < k ==> !(#[trigger] node.nodes@[j]).focused,
        forall|j: int|
            0 <= j < node.nodes@.len() ==> (#[trigger] node.nodes@[j]).nodes@.len() == 0,
    ensures
        spec_find_from(node, i, target) == spec_find_from(node, k, target),
    decreases k - i,
{
    if i < k {
        assert(spec_find_from(node.nodes@[i], 0, target) is None);
        lemma_flat_scan(node, i + 1, k, target);
    }
}

/// Sibling wraparound: in a flat list of siblings where the child at index
/// `k` is the focused one, `Next` resolves to the sibling at
/// `(k + 1) % n` and `Previous` to the sibling at `(k + n - 1) % n`,
/// treating the list as circular.
pub proof fn lemma_flat_wraparound(node: I3TreeNode, k: int, target: FocusTarget)
    requires
        0 <= k < node.nodes@.len(),
        node.nodes@[k].focused,
        forall|j: int| 0 <= j < k ==> !(#[trigger] node.nodes@[j]).focused,
        forall|j: int|
            0 <= j < node.nodes@.len() ==> (#[trigger] node.nodes@[j]).nodes@.len() == 0,
    ensures
        spec_find_target(node, target) == Some(
            node.nodes@[spec_wrap_index(k, node.nodes@.len() as int, target)],
        ),
{
    lemma_flat_scan(node, 0, k, target);
}

/// Single-child identity: a focused child whose sibling list holds only
/// itself resolves to itself, for either direction.
pub proof fn lemma_single_child_identity(node: I3TreeNode, target: FocusTarget)
    requires
        node.nodes@.len() == 1,
        node.nodes@[0].focused,
    ensures
        spec_find_target(node, target) == Some(node.nodes@[0]),
{
    vstd::arithmetic::div_mod::lemma_small_mod(0nat, 1nat);
    vstd::arithmetic::div_mod::lemma_mod_self_0(1int);
    assert(spec_wrap_index(0, 1, target) == 0);
}

proof fn lemma_prefix_scan(node1: I3TreeNode, node2: I3TreeNode, i: int, target: FocusTarget)
    requires
        node1.nodes@.len() <= node2.nodes@.len(),
        forall|j: int|
            0 <= j < node1.nodes@.len() ==> (#[trigger] node2.nodes@[j]) == node1.nodes@[j],
        forall|j: int| 0 <= j < node1.nodes@.len() ==> !(#[trigger] node1.nodes@[j]).focused,
        0 <= i,
        spec_find_from(node1, i, target) is Some,
    ensures
        spec_find_from(node2, i, target) == spec_find_from(node1, i, target),
    decreases node1.nodes@.len() - i,
{
    assert(i < node1.nodes@.len());
    let child = node1.nodes@[i];
    assert(node2.nodes@[i] == child);
    if spec_find_from(child, 0, target) is None {
        lemma_prefix_scan(node1, node2, i + 1, target);
    }
}

/// Depth-first short-circuit: once the search finds its result inside one of
/// the earlier, unfocused children, the siblings after them play no part —
/// a tree that extends the child list with any further subtrees resolves to
/// the very same node.
pub proof fn lemma_later_siblings_irrelevant(
    node1: I3TreeNode,
    node2: I3TreeNode,
    target: FocusTarget,
)
    requires
        node1.nodes@.len() <= node2.nodes@.len(),
        forall|j: int|
            0 <= j < node1.nodes@.len() ==> (#[trigger] node2.nodes@[j]) == node1.nodes@[j],
        forall|j: int| 0 <= j < node1.nodes@.len() ==> !(#[trigger] node1.nodes@[j]).focused,
        spec_find_target(node1, target) is Some,
    ensures
        spec_find_target(node2, target) == spec_find_target(node1, target),
{
    lemma_prefix_scan(node1, node2, 0, target);
}

proof fn lemma_unfocused_scan(node: I3TreeNode, i: int, target: FocusTarget)
    requires
        !spec_subtree_has_focus(node),
    ensures
        spec_find_from(node, i, target) is None,
    decreases node, node.nodes@.len() - i,
{
    if 0 <= i < node.nodes@.len() {
        let child = node.nodes@[i];
        assert(!spec_subtree_has_focus(child));
        lemma_unfocused_scan(child, 0, target);
        lemma_unfocused_scan(node, i + 1, target);
    }
}

/// No focus found: a tree without any focused node resolves to nothing, so
/// the whole operation is a no-op rather than an error.
pub proof fn lemma_no_focus_no_target(node: I3TreeNode, target: FocusTarget)
    requires
        !spec_subtree_has_focus(node),
    ensures
        spec_find_target(node, target) is None,
{
    lemma_unfocused_scan(node, 0, target);
}

} // verus!
