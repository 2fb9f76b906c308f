//! The per-node lists of the particles that touch a grid node.
//!
//! Contributions of many particles to one node are taken one after the
//! other along the list of the node. A list is singly linked: every node
//! has a head, every particle names the particle that follows it.

use vstd::prelude::*;

verus! {

/// The end of a list: no sample follows.
pub const NONE: u32 = 0xffff_ffff;

/// The last of the first `m` samples that touches the grid node `node`, or
/// [`NONE`] if none of them does. Sample `s` touches the node `nodes[s]`.
pub open spec fn last_in(nodes: Seq<u32>, m: int, node: u32) -> u32
    decreases m,
{
    if m <= 0 {
        NONE
    } else if nodes[m - 1] == node {
        (m - 1) as u32
    } else {
        last_in(nodes, m - 1, node)
    }
}

/// Number of the samples `from .. to` that touch the grid node `node`.
pub open spec fn count_between(nodes: Seq<u32>, from: int, to: int, node: u32) -> nat
    decreases to - from,
{
    if to <= from {
        0
    } else {
        count_between(nodes, from, to - 1, node) + if nodes[to - 1] == node {
            1nat
        } else {
            0nat
        }
    }
}

/// The sample reached from the sample `at` after `k` steps along the links.
pub open spec fn walk(next: Seq<u32>, at: u32, k: nat) -> u32
    decreases k,
{
    if k == 0 || at == NONE {
        at
    } else {
        walk(next, next[at as int], (k - 1) as nat)
    }
}

/// For every grid node, the list of the samples that touch it: the head of
/// the list of each node, and for each sample the sample that follows it.
pub struct NodeLinkedLists {
    pub heads: Vec<u32>,
    pub next: Vec<u32>,
}

impl NodeLinkedLists {
    /// The list of every node starts at the last sample that touches the
    /// node, and every sample is followed by the last sample before it that
    /// touches the same node.
    pub open spec fn links(&self, nodes: Seq<u32>, num_nodes: u32) -> bool {
        &&& self.heads@.len() == num_nodes
        &&& self.next@.len() == nodes.len()
        &&& forall|node: int|
            0 <= node < num_nodes ==> #[trigger] self.heads@[node] == last_in(
                nodes,
                nodes.len() as int,
                node as u32,
            )
        &&& forall|s: int|
            0 <= s < nodes.len() ==> #[trigger] self.next@[s] == last_in(nodes, s, nodes[s])
    }

    /// Every sample is on the list of the node that it touches: it is
    /// reached from the head of the list after as many steps as there are
    /// later samples that touch the node.
    pub proof fn lemma_sample_is_listed(&self, nodes: Seq<u32>, num_nodes: u32, s: int)
        requires
            self.links(nodes, num_nodes),
            nodes.len() < NONE,
            0 <= s < nodes.len(),
            nodes[s] < num_nodes,
        ensures
            walk(
                self.next@,
                self.heads@[nodes[s] as int],
                count_between(nodes, s + 1, nodes.len() as int, nodes[s]),
            ) == s,
    {
        self.lemma_walk_reaches(nodes, num_nodes, s, nodes.len() as int);
    }

    /// The sample `s` is reached from the last of the first `m` samples of
    /// its node.
    proof fn lemma_walk_reaches(&self, nodes: Seq<u32>, num_nodes: u32, s: int, m: int)
        requires
            self.links(nodes, num_nodes),
            nodes.len() < NONE,
            0 <= s < m <= nodes.len(),
        ensures
            walk(
                self.next@,
                last_in(nodes, m, nodes[s]),
                count_between(nodes, s + 1, m, nodes[s]),
            ) == s,
        decreases m,
    {
        let node = nodes[s];
        if m == s + 1 {
            assert(count_between(nodes, s + 1, m, node) == 0);
        } else {
            self.lemma_walk_reaches(nodes, num_nodes, s, m - 1);
            if nodes[m - 1] == node {
                assert(self.next@[m - 1] == last_in(nodes, m - 1, node));
            }
        }
    }

    /// The list of a node ends behind the first sample that touches it.
    pub proof fn lemma_list_ends(&self, nodes: Seq<u32>, num_nodes: u32, s: int)
        requires
            self.links(nodes, num_nodes),
            0 <= s < nodes.len(),
            count_between(nodes, 0, s, nodes[s]) == 0,
        ensures
            self.next@[s] == NONE,
    {
        lemma_none_before(nodes, s, nodes[s]);
    }
}

/// Where none of the first `m` samples touches a node, there is no last
/// one.
proof fn lemma_none_before(nodes: Seq<u32>, m: int, node: u32)
    requires
        count_between(nodes, 0, m, node) == 0,
    ensures
        last_in(nodes, m, node) == NONE,
    decreases m,
{
    if m > 0 {
        lemma_none_before(nodes, m - 1, node);
    }
}

/// Links every sample into the list of the grid node that it touches.
///
/// Sample indices must differ from the end mark, and every sample must
/// touch one of the `num_nodes` nodes.
pub fn sort_rigid_particles(nodes: &Vec<u32>, num_nodes: u32) -> (lists: NodeLinkedLists)
    requires
        nodes@.len() < NONE,
        forall|s: int| 0 <= s < nodes@.len() ==> (#[trigger] nodes@[s]) < num_nodes,
    ensures
        lists.links(nodes@, num_nodes),
{
    let mut heads: Vec<u32> = Vec::new();
    let mut node: u32 = 0;
    while node < num_nodes
        invariant
            node <= num_nodes,
            heads@.len() == node,
            forall|i: int| 0 <= i < node ==> #[trigger] heads@[i] == NONE,
        decreases num_nodes - node,
    {
        heads.push(NONE);
        node = node + 1;
    }
    let mut next: Vec<u32> = Vec::new();
    let mut s: usize = 0;
    while s < nodes.len()
        invariant
            s <= nodes@.len(),
            nodes@.len() < NONE,
            forall|s: int| 0 <= s < nodes@.len() ==> (#[trigger] nodes@[s]) < num_nodes,
            heads@.len() == num_nodes,
            next@.len() == s,
            forall|i: int|
                0 <= i < num_nodes ==> #[trigger] heads@[i] == last_in(nodes@, s as int, i as u32),
            forall|q: int| 0 <= q < s ==> #[trigger] next@[q] == last_in(nodes@, q, nodes@[q]),
        decreases nodes@.len() - s,
    {
        let touched: usize = nodes[s] as usize;
        next.push(heads[touched]);
        heads.set(touched, s as u32);
        s = s + 1;
    }
    NodeLinkedLists { heads, next }
}

} // verus!
