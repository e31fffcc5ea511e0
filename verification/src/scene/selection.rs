use vstd::prelude::*;

use crate::handle::NodeHandle;

verus! {

/// Whether `p` is the first position of `handle` in `nodes`.
pub open spec fn is_first_position(nodes: Seq<NodeHandle>, handle: NodeHandle, p: int) -> bool {
    &&& 0 <= p < nodes.len()
    &&& nodes[p] == handle
    &&& forall|j: int| 0 <= j < p ==> #[trigger] nodes[j] != handle
}

/// The first position of `handle` in `nodes` (meaningful when `nodes` contains it).
pub open spec fn first_position(nodes: Seq<NodeHandle>, handle: NodeHandle) -> int {
    choose|p: int| is_first_position(nodes, handle, p)
}

/// `nodes` with `handle` taken out at its first position when it is there,
/// and added at the end when it is not.
pub open spec fn toggled(nodes: Seq<NodeHandle>, handle: NodeHandle) -> Seq<NodeHandle> {
    if nodes.contains(handle) {
        nodes.remove(first_position(nodes, handle))
    } else {
        nodes.push(handle)
    }
}

/// The nodes of a selection of just `node`: none when `node` is the handle
/// that points at nothing.
pub open spec fn single_or_empty_spec(node: NodeHandle) -> Seq<NodeHandle> {
    if node.is_none_spec() {
        Seq::empty()
    } else {
        seq![node]
    }
}

/// How the editor compares a selection `a` with a selection `b`: order does
/// not count, and `a` matches `b` when every node of `a` is in `b`, except that
/// an empty `a` does not match a nonempty `b`.
pub open spec fn selection_matches(a: Seq<NodeHandle>, b: Seq<NodeHandle>) -> bool {
    &&& !(a.len() == 0 && b.len() > 0)
    &&& forall|k: int| 0 <= k < a.len() ==> b.contains(#[trigger] a[k])
}

/// The selected nodes of a scene graph, in the order they were selected.
#[derive(Debug)]
pub struct GraphSelection {
    nodes: Vec<NodeHandle>,
}

impl View for GraphSelection {
    type V = Seq<NodeHandle>;

    closed spec fn view(&self) -> Seq<NodeHandle> {
        self.nodes@
    }
}

impl GraphSelection {
    /// An empty selection.
    pub fn new() -> (s: GraphSelection)
        ensures
            s@ == Seq::<NodeHandle>::empty(),
    {
        GraphSelection { nodes: Vec::new() }
    }

    /// A selection of the given nodes, in order.
    pub fn from_nodes(nodes: Vec<NodeHandle>) -> (s: GraphSelection)
        ensures
            s@ == nodes@,
    {
        GraphSelection { nodes }
    }

    /// A selection of just `node`, or an empty one when `node` points at nothing.
    pub fn single_or_empty(node: NodeHandle) -> (s: GraphSelection)
        ensures
            s@ == single_or_empty_spec(node),
    {
        if node.is_none() {
            GraphSelection { nodes: Vec::new() }
        } else {
            let mut nodes: Vec<NodeHandle> = Vec::new();
            nodes.push(node);
            assert(nodes@ =~= seq![node]);
            GraphSelection { nodes }
        }
    }

    /// A selection of the same nodes in the same order.
    pub fn copied(&self) -> (s: GraphSelection)
        ensures
            s@ == self@,
    {
        let mut nodes: Vec<NodeHandle> = Vec::new();
        let mut i: usize = 0;
        while i < self.nodes.len()
            invariant
                i <= self.nodes@.len(),
                nodes@ == self.nodes@.take(i as int),
            decreases self.nodes@.len() - i,
        {
            nodes.push(self.nodes[i]);
            i += 1;
            assert(nodes@ =~= self.nodes@.take(i as int));
        }
        assert(self.nodes@.take(i as int) =~= self.nodes@);
        GraphSelection { nodes }
    }

    pub fn nodes(&self) -> (n: &Vec<NodeHandle>)
        ensures
            n@ == self@,
    {
        &self.nodes
    }

    pub fn len(&self) -> (n: usize)
        ensures
            n == self@.len(),
    {
        self.nodes.len()
    }

    pub fn is_empty(&self) -> (r: bool)
        ensures
            r == (self@.len() == 0),
    {
        self.nodes.len() == 0
    }

    pub fn contains(&self, handle: NodeHandle) -> (r: bool)
        ensures
            r == self@.contains(handle),
    {
        let mut i: usize = 0;
        while i < self.nodes.len()
            invariant
                i <= self.nodes@.len(),
                forall|j: int| 0 <= j < i ==> #[trigger] self.nodes@[j] != handle,
            decreases self.nodes@.len() - i,
        {
            if self.nodes[i] == handle {
                return true;
            }
            i += 1;
        }
        false
    }

    /// Adds `handle` to the selection, or takes it out when it is already selected.
    pub fn insert_or_exclude(&mut self, handle: NodeHandle)
        ensures
            final(self)@ == toggled(old(self)@, handle),
    {
        let mut i: usize = 0;
        while i < self.nodes.len()
            invariant
                i <= self.nodes@.len(),
                self.nodes@ == old(self).nodes@,
                forall|j: int| 0 <= j < i ==> #[trigger] self.nodes@[j] != handle,
            decreases self.nodes@.len() - i,
        {
            if self.nodes[i] == handle {
                proof {
                    lemma_first_position_unique(self.nodes@, handle, i as int);
                }
                self.nodes.remove(i);
                return;
            }
            i += 1;
        }
        self.nodes.push(handle);
    }

    /// Whether this selection matches `other` as the editor compares
    /// selections (see `selection_matches`).
    pub fn matches(&self, other: &GraphSelection) -> (r: bool)
        ensures
            r == selection_matches(self@, other@),
    {
        if self.nodes.len() == 0 && other.nodes.len() != 0 {
            return false;
        }
        let mut i: usize = 0;
        while i < self.nodes.len()
            invariant
                i <= self.nodes@.len(),
                forall|k: int| 0 <= k < i ==> other@.contains(#[trigger] self.nodes@[k]),
            decreases self.nodes@.len() - i,
        {
            if !other.contains(self.nodes[i]) {
                return false;
            }
            i += 1;
        }
        true
    }
}

/// A position where `handle` is found, with none before it, is its first position.
proof fn lemma_first_position_unique(nodes: Seq<NodeHandle>, handle: NodeHandle, p: int)
    requires
        is_first_position(nodes, handle, p),
    ensures
        nodes.contains(handle),
        first_position(nodes, handle) == p,
{
    let q = first_position(nodes, handle);
    assert(is_first_position(nodes, handle, q));
    if q < p {
        assert(nodes[q] != handle);
    } else if p < q {
        assert(nodes[p] != handle);
    }
}

/// Every handle that is in a sequence has a first position.
pub proof fn lemma_first_position_exists(nodes: Seq<NodeHandle>, handle: NodeHandle)
    requires
        nodes.contains(handle),
    ensures
        is_first_position(nodes, handle, first_position(nodes, handle)),
    decreases nodes.len(),
{
    if nodes[nodes.len() - 1] == handle && !nodes.drop_last().contains(handle) {
        let p = nodes.len() - 1;
        assert forall|j: int| 0 <= j < p implies #[trigger] nodes[j] != handle by {
            if nodes[j] == handle {
                assert(nodes.drop_last()[j] == handle);
            }
        }
        assert(is_first_position(nodes, handle, p));
    } else {
        let prefix = nodes.drop_last();
        if !prefix.contains(handle) {
            let w = choose|w: int| 0 <= w < nodes.len() && nodes[w] == handle;
            assert(prefix[w] == handle);
        }
        lemma_first_position_exists(prefix, handle);
        let p = first_position(prefix, handle);
        assert forall|j: int| 0 <= j < p implies #[trigger] nodes[j] != handle by {
            assert(prefix[j] != handle);
        }
        assert(is_first_position(nodes, handle, p));
    }
}

/// Selecting a node that is not selected and then selecting it again with the
/// same toggle gives back the selection as it was, order included.
pub proof fn lemma_toggle_twice(nodes: Seq<NodeHandle>, handle: NodeHandle)
    requires
        !nodes.contains(handle),
    ensures
        toggled(toggled(nodes, handle), handle) == nodes,
{
    let pushed = nodes.push(handle);
    assert(pushed[nodes.len() as int] == handle);
    assert(pushed.contains(handle));
    assert(is_first_position(pushed, handle, nodes.len() as int)) by {
        assert forall|j: int| 0 <= j < nodes.len() implies #[trigger] pushed[j] != handle by {
            assert(pushed[j] == nodes[j]);
        }
    }
    lemma_first_position_unique(pushed, handle, nodes.len() as int);
    assert(pushed.remove(nodes.len() as int) =~= nodes);
}

/// In a selection without repeated nodes, a toggle flips whether `handle` is
/// selected, keeps every other node as it was, and repeats no node.
pub proof fn lemma_toggle_membership(nodes: Seq<NodeHandle>, handle: NodeHandle, other: NodeHandle)
    requires
        nodes.no_duplicates(),
    ensures
        toggled(nodes, handle).no_duplicates(),
        toggled(nodes, handle).contains(handle) == !nodes.contains(handle),
        other != handle ==> toggled(nodes, handle).contains(other) == nodes.contains(other),
{
    if nodes.contains(handle) {
        lemma_first_position_exists(nodes, handle);
        let p = first_position(nodes, handle);
        let removed = nodes.remove(p);
        assert forall|k: int| 0 <= k < removed.len() implies #[trigger] removed[k] != handle by {
            if k < p {
                assert(removed[k] == nodes[k]);
            } else {
                assert(removed[k] == nodes[k + 1]);
            }
        }
        if other != handle {
            if nodes.contains(other) {
                let w = choose|w: int| 0 <= w < nodes.len() && nodes[w] == other;
                if w < p {
                    assert(removed[w] == other);
                } else {
                    assert(w != p);
                    assert(removed[w - 1] == other);
                }
            }
            if removed.contains(other) {
                let w = choose|w: int| 0 <= w < removed.len() && removed[w] == other;
                if w < p {
                    assert(nodes[w] == other);
                } else {
                    assert(nodes[w + 1] == other);
                }
            }
        }
        assert forall|a: int, b: int|
            0 <= a < removed.len() && 0 <= b < removed.len() && a != b implies removed[a]
            != removed[b] by {
            let a2 = if a < p { a } else { a + 1 };
            let b2 = if b < p { b } else { b + 1 };
            assert(removed[a] == nodes[a2]);
            assert(removed[b] == nodes[b2]);
        }
    } else {
        let pushed = nodes.push(handle);
        assert(pushed[nodes.len() as int] == handle);
        if other != handle {
            if nodes.contains(other) {
                let w = choose|w: int| 0 <= w < nodes.len() && nodes[w] == other;
                assert(pushed[w] == other);
            }
            if pushed.contains(other) {
                let w = choose|w: int| 0 <= w < pushed.len() && pushed[w] == other;
                assert(nodes[w] == other);
            }
        }
        assert forall|a: int, b: int|
            0 <= a < pushed.len() && 0 <= b < pushed.len() && a != b implies pushed[a]
            != pushed[b] by {
            if a < nodes.len() && b < nodes.len() {
                assert(pushed[a] == nodes[a]);
                assert(pushed[b] == nodes[b]);
            } else if a < nodes.len() {
                assert(pushed[a] == nodes[a]);
            } else if b < nodes.len() {
                assert(pushed[b] == nodes[b]);
            }
        }
    }
}

/// How selections compare: `a` matches `b` exactly when every node of `a` is
/// in `b` and `a` is not empty while `b` has nodes. So a selection matches
/// itself and any reordering of itself, and the empty selection matches
/// only the empty selection.
pub proof fn lemma_selection_matches(a: Seq<NodeHandle>, b: Seq<NodeHandle>)
    ensures
        selection_matches(a, b) <==> ((a.len() == 0 ==> b.len() == 0) && forall|k: int|
            0 <= k < a.len() ==> b.contains(#[trigger] a[k])),
        selection_matches(a, a),
        selection_matches(Seq::empty(), b) <==> b.len() == 0,
{
    assert forall|k: int| 0 <= k < a.len() implies a.contains(#[trigger] a[k]) by {}
}

} // verus!
