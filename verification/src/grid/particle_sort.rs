//! Sorting particles into the active blocks, on host values.
//!
//! The table of active blocks is rebuilt from the blocks in which the
//! particles lie. Every block counts its particles, a prefix sum turns the
//! counts into the starts of the block ranges, and every particle takes
//! the next free place in the range of its block. The sorted particle
//! indices are a permutation of the particle indices.

use crate::dvector::U32Vector;
use crate::grid::blocks::{
    lemma_same_blocks, BlockTable, BlockVirtualId, GpuActiveBlockHeader, GridError,
};
use crate::grid::prefix_sum::{lemma_prefix_total_monotonic, prefix_total, WgPrefixSum};
use vstd::prelude::*;

verus! {

/// The blocks that the first `n` particles touch, each once, in the order
/// in which they are touched first. Particle `p` lies in block `blocks[p]`.
pub open spec fn touched_blocks(blocks: Seq<BlockVirtualId>, n: int) -> Seq<BlockVirtualId>
    decreases n,
{
    if n <= 0 {
        Seq::<BlockVirtualId>::empty()
    } else {
        let front = touched_blocks(blocks, n - 1);
        if front.contains(blocks[n - 1]) {
            front
        } else {
            front.push(blocks[n - 1])
        }
    }
}

/// Number of particles among the first `n` that lie in the block `id`.
pub open spec fn count_in(blocks: Seq<BlockVirtualId>, n: int, id: BlockVirtualId) -> int
    decreases n,
{
    if n <= 0 {
        0
    } else {
        count_in(blocks, n - 1, id) + if blocks[n - 1] == id {
            1int
        } else {
            0int
        }
    }
}

/// A count of particles grows with the number of particles looked at, by
/// at most that number.
pub proof fn lemma_count_in_monotonic(
    blocks: Seq<BlockVirtualId>,
    m: int,
    n: int,
    id: BlockVirtualId,
)
    requires
        0 <= m <= n,
    ensures
        0 <= count_in(blocks, m, id) <= count_in(blocks, n, id) <= count_in(blocks, m, id) + (n
            - m),
    decreases n,
{
    if m < n {
        lemma_count_in_monotonic(blocks, m, n - 1, id);
    } else if m > 0 {
        lemma_count_in_monotonic(blocks, m - 1, m - 1, id);
    }
}

/// The blocks touched grow with the particles: what was touched stays in
/// its place, and every particle's block is touched.
pub proof fn lemma_touched_blocks_grow(blocks: Seq<BlockVirtualId>, m: int, n: int)
    requires
        0 <= m <= n,
    ensures
        touched_blocks(blocks, m).len() <= touched_blocks(blocks, n).len(),
        forall|b: int|
            0 <= b < touched_blocks(blocks, m).len() ==> touched_blocks(blocks, n)[b]
                == #[trigger] touched_blocks(blocks, m)[b],
        forall|q: int| 0 <= q < n ==> touched_blocks(blocks, n).contains(#[trigger] blocks[q]),
    decreases n,
{
    if n > 0 {
        let front = touched_blocks(blocks, n - 1);
        let all = touched_blocks(blocks, n);
        if m < n {
            lemma_touched_blocks_grow(blocks, m, n - 1);
        } else {
            lemma_touched_blocks_grow(blocks, n - 1, n - 1);
        }
        assert forall|q: int| 0 <= q < n implies all.contains(#[trigger] blocks[q]) by {
            if q < n - 1 {
                let b = choose|b: int| 0 <= b < front.len() && front[b] == blocks[q];
                assert(all[b] == blocks[q]);
            } else if front.contains(blocks[q]) {
            } else {
                assert(all[front.len() as int] == blocks[q]);
            }
        }
    }
}

/// A sum of zeros is zero.
pub proof fn lemma_prefix_total_zero(s: Seq<u32>, n: int)
    requires
        0 <= n <= s.len(),
        forall|i: int| 0 <= i < n ==> s[i] == 0,
    ensures
        prefix_total(s, n) == 0,
    decreases n,
{
    if n > 0 {
        lemma_prefix_total_zero(s, n - 1);
    }
}

/// Adding one to an entry adds one to every total that includes it.
pub proof fn lemma_prefix_total_increment(s: Seq<u32>, i: int, n: int)
    requires
        0 <= i < s.len(),
        0 <= n <= s.len(),
        s[i] < u32::MAX,
    ensures
        prefix_total(s.update(i, (s[i] + 1) as u32), n) == prefix_total(s, n) + if i < n {
            1int
        } else {
            0int
        },
    decreases n,
{
    if n > 0 {
        lemma_prefix_total_increment(s, i, n - 1);
    }
}

impl BlockTable {
    /// No active block holds a particle yet.
    pub open spec fn headers_empty(&self) -> bool {
        forall|b: int|
            0 <= b < self.num_active_blocks ==> (
            #[trigger] self.active_blocks@[b]).first_particle == 0
                && self.active_blocks@[b].num_particles == 0
    }

    /// Touches the block of every particle, in the order of the particles.
    ///
    /// Fails, with the table as it is at the first block that does not
    /// fit, exactly if the particles lie in more blocks than the table
    /// can hold.
    pub fn touch_particle_blocks(&mut self, blocks: &Vec<BlockVirtualId>) -> (r: Result<
        (),
        GridError,
    >)
        requires
            old(self).wf(),
            old(self).num_active_blocks == 0,
        ensures
            final(self).wf(),
            final(self).capacity() == old(self).capacity(),
            r is Ok <==> touched_blocks(blocks@, blocks@.len() as int).len()
                <= old(self).capacity(),
            r is Ok ==> final(self).ids() == touched_blocks(blocks@, blocks@.len() as int),
            r is Err ==> r == Err::<(), GridError>(GridError::CapacityExceeded)
                && final(self).ids() == touched_blocks(blocks@, blocks@.len() as int).take(
                old(self).capacity(),
            ),
            final(self).headers_empty(),
    {
        let mut p: usize = 0;
        assert(self.ids() =~= touched_blocks(blocks@, 0));
        while p < blocks.len()
            invariant
                p <= blocks@.len(),
                self.wf(),
                self.capacity() == old(self).capacity(),
                self.ids() == touched_blocks(blocks@, p as int),
                self.headers_empty(),
            decreases blocks@.len() - p,
        {
            match self.touch(blocks[p]) {
                Ok(_) => {},
                Err(e) => {
                    proof {
                        lemma_touched_blocks_grow(blocks@, p + 1, blocks@.len() as int);
                        lemma_touched_blocks_grow(blocks@, p as int, blocks@.len() as int);
                        assert(self.ids() =~= touched_blocks(blocks@, blocks@.len() as int).take(
                            self.capacity(),
                        ));
                    }
                    return Err(e);
                },
            }
            p = p + 1;
        }
        Ok(())
    }

    /// The particle counts of the blocks, slot by slot: zero for the slots
    /// that hold no block.
    pub open spec fn particle_counts(&self) -> Seq<u32> {
        Seq::new(
            self.capacity() as nat,
            |b: int|
                if b < self.num_active_blocks {
                    self.active_blocks@[b].num_particles
                } else {
                    0u32
                },
        )
    }

    /// Every active block holds the number of the first `n` particles that
    /// lie in it, and no range yet.
    pub open spec fn counts_through(&self, blocks: Seq<BlockVirtualId>, n: int) -> bool {
        forall|b: int|
            0 <= b < self.num_active_blocks ==> (
            #[trigger] self.active_blocks@[b]).first_particle == 0
                && self.active_blocks@[b].num_particles == count_in(
                blocks,
                n,
                self.active_blocks@[b].virtual_id,
            )
    }

    /// Counts the particles of every active block.
    ///
    /// The block of every particle must be active.
    pub fn update_block_particle_count(&mut self, blocks: &Vec<BlockVirtualId>)
        requires
            old(self).wf(),
            old(self).headers_empty(),
            blocks@.len() <= u32::MAX,
            forall|q: int| 0 <= q < blocks@.len() ==> old(self).ids().contains(#[trigger] blocks@[q]),
        ensures
            final(self).wf(),
            final(self).hmap_entries == old(self).hmap_entries,
            final(self).num_active_blocks == old(self).num_active_blocks,
            final(self).ids() == old(self).ids(),
            final(self).counts_through(blocks@, blocks@.len() as int),
            prefix_total(final(self).particle_counts(), final(self).capacity()) == blocks@.len(),
    {
        let mut p: usize = 0;
        proof {
            lemma_prefix_total_zero(self.particle_counts(), self.capacity());
        }
        while p < blocks.len()
            invariant
                p <= blocks@.len(),
                blocks@.len() <= u32::MAX,
                self.wf(),
                self.hmap_entries == old(self).hmap_entries,
                self.num_active_blocks == old(self).num_active_blocks,
                self.ids() == old(self).ids(),
                forall|q: int|
                    0 <= q < blocks@.len() ==> self.ids().contains(#[trigger] blocks@[q]),
                self.counts_through(blocks@, p as int),
                prefix_total(self.particle_counts(), self.capacity()) == p,
            decreases blocks@.len() - p,
        {
            let id = blocks[p];
            assert(self.ids().contains(blocks@[p as int]));
            match self.find(id) {
                Some(b) => {
                    let header = self.active_blocks[b as usize];
                    let ghost before = *self;
                    proof {
                        assert(header.virtual_id == id);
                        lemma_count_in_monotonic(blocks@, 0, p as int, id);
                    }
                    self.active_blocks.set(
                        b as usize,
                        GpuActiveBlockHeader {
                            virtual_id: header.virtual_id,
                            first_particle: header.first_particle,
                            num_particles: header.num_particles + 1,
                        },
                    );
                    proof {
                        lemma_same_blocks(before, *self);
                        lemma_prefix_total_increment(
                            before.particle_counts(),
                            b as int,
                            self.capacity(),
                        );
                        assert(self.particle_counts() =~= before.particle_counts().update(
                            b as int,
                            (before.particle_counts()[b as int] + 1) as u32,
                        ));
                        assert forall|c: int| 0 <= c < self.num_active_blocks implies (
                        #[trigger] self.active_blocks@[c]).first_particle == 0
                            && self.active_blocks@[c].num_particles == count_in(
                            blocks@,
                            p + 1,
                            self.active_blocks@[c].virtual_id,
                        ) by {
                            if c != b {
                                before.lemma_ids_distinct(c, b as int);
                                assert(before.ids()[c] == before.active_blocks@[c].virtual_id);
                                assert(before.active_blocks@[c].first_particle == 0);
                            }
                        }
                    }
                },
                None => {},
            }
            p = p + 1;
        }
    }
}

/// Every index below a total lies in the range of exactly one summand:
/// there is a place `b` with `total(b) <= k < total(b + 1)`.
pub proof fn lemma_find_range(counts: Seq<u32>, m: int, k: int) -> (b: int)
    requires
        0 <= m <= counts.len(),
        0 <= k < prefix_total(counts, m),
    ensures
        0 <= b < m,
        prefix_total(counts, b) <= k < prefix_total(counts, b) + counts[b],
    decreases m,
{
    if k >= prefix_total(counts, m - 1) {
        m - 1
    } else {
        lemma_find_range(counts, m - 1, k)
    }
}

/// The particle of the block `id` that has `j` particles of the block
/// before it, where the block holds more than `j` of the first `n`
/// particles.
pub proof fn lemma_nth_occurrence(blocks: Seq<BlockVirtualId>, n: int, id: BlockVirtualId, j: int)
    -> (q: int)
    requires
        0 <= j < count_in(blocks, n, id),
    ensures
        0 <= q < n,
        blocks[q] == id,
        count_in(blocks, q, id) == j,
    decreases n,
{
    if n <= 0 {
        0
    } else if blocks[n - 1] == id && count_in(blocks, n - 1, id) == j {
        n - 1
    } else {
        lemma_nth_occurrence(blocks, n - 1, id, j)
    }
}

impl BlockTable {
    /// The slot of the active block `id`.
    pub open spec fn index_of(&self, id: BlockVirtualId) -> int {
        choose|b: int| 0 <= b < self.num_active_blocks && self.ids()[b] == id
    }

    /// The place of particle `p` among the sorted particles: in the range
    /// of its block, after the particles of the block that come before it.
    pub open spec fn position_of(&self, blocks: Seq<BlockVirtualId>, p: int) -> int {
        self.active_blocks@[self.index_of(blocks[p])].first_particle + count_in(
            blocks,
            p,
            blocks[p],
        )
    }

    /// The headers hold the particle count of every active block, and the
    /// ranges of the blocks follow each other from zero in slot order.
    pub open spec fn ranges_of(&self, blocks: Seq<BlockVirtualId>) -> bool {
        &&& prefix_total(self.particle_counts(), self.capacity()) == blocks.len()
        &&& forall|b: int|
            0 <= b < self.num_active_blocks ==> (
            #[trigger] self.active_blocks@[b]).num_particles == count_in(
                blocks,
                blocks.len() as int,
                self.active_blocks@[b].virtual_id,
            ) && self.active_blocks@[b].first_particle == prefix_total(self.particle_counts(), b)
    }

    /// The slot of an active block is the slot at which its coordinates
    /// stand.
    pub proof fn lemma_index_of(&self, b: int)
        requires
            self.wf(),
            0 <= b < self.num_active_blocks,
        ensures
            self.index_of(self.ids()[b]) == b,
    {
        let c = self.index_of(self.ids()[b]);
        if c != b {
            self.lemma_ids_distinct(c, b);
        }
    }

    /// The ranges of two different blocks do not overlap: the one with the
    /// smaller slot ends before the other one starts.
    pub proof fn lemma_ranges_ordered(&self, blocks: Seq<BlockVirtualId>, a: int, b: int)
        requires
            self.wf(),
            self.ranges_of(blocks),
            0 <= a < b < self.num_active_blocks,
        ensures
            self.active_blocks@[a].first_particle + self.active_blocks@[a].num_particles
                <= self.active_blocks@[b].first_particle,
            self.active_blocks@[b].first_particle + self.active_blocks@[b].num_particles
                <= blocks.len(),
    {
        let counts = self.particle_counts();
        assert(prefix_total(counts, a + 1) == prefix_total(counts, a) + counts[a]);
        assert(prefix_total(counts, b + 1) == prefix_total(counts, b) + counts[b]);
        lemma_prefix_total_monotonic(counts, a + 1, b);
        lemma_prefix_total_monotonic(counts, b + 1, self.capacity());
    }

    /// The range of a block ends within the sorted particles.
    pub proof fn lemma_range_end(&self, blocks: Seq<BlockVirtualId>, b: int)
        requires
            self.wf(),
            self.ranges_of(blocks),
            0 <= b < self.num_active_blocks,
        ensures
            0 <= self.active_blocks@[b].first_particle,
            self.active_blocks@[b].first_particle + self.active_blocks@[b].num_particles
                <= blocks.len(),
    {
        let counts = self.particle_counts();
        assert(prefix_total(counts, b + 1) == prefix_total(counts, b) + counts[b]);
        lemma_prefix_total_monotonic(counts, b + 1, self.capacity());
    }

    /// The slot of a block that is active.
    pub proof fn lemma_index_of_active(&self, id: BlockVirtualId)
        requires
            self.wf(),
            self.ids().contains(id),
        ensures
            0 <= self.index_of(id) < self.num_active_blocks,
            self.ids()[self.index_of(id)] == id,
            self.active_blocks@[self.index_of(id)].virtual_id == id,
    {
        let w = choose|i: int| 0 <= i < self.ids().len() && self.ids()[i] == id;
        assert(0 <= w < self.num_active_blocks && self.ids()[w] == id);
    }

    /// While the first `p` particles are placed: every block's cursor
    /// stands behind the particles of the block that are placed, and every
    /// placed particle stands at its place.
    pub open spec fn placed(
        &self,
        blocks: Seq<BlockVirtualId>,
        p: int,
        cursors: Seq<u32>,
        sorted_ids: Seq<u32>,
    ) -> bool {
        &&& sorted_ids.len() == blocks.len()
        &&& cursors.len() == self.num_active_blocks
        &&& forall|c: int|
            0 <= c < self.num_active_blocks ==> #[trigger] cursors[c]
                == self.active_blocks@[c].first_particle + count_in(
                blocks,
                p,
                self.active_blocks@[c].virtual_id,
            )
        &&& forall|q: int|
            0 <= q < p ==> 0 <= #[trigger] self.position_of(blocks, q) < blocks.len()
                && sorted_ids[self.position_of(blocks, q)] == q
    }

    /// Placing particle `p` at the cursor of its block keeps what holds of
    /// the particles placed before.
    proof fn lemma_place(
        &self,
        blocks: Seq<BlockVirtualId>,
        p: int,
        b: int,
        cursors: Seq<u32>,
        sorted_ids: Seq<u32>,
    )
        requires
            self.wf(),
            self.ranges_of(blocks),
            blocks.len() <= u32::MAX,
            forall|q: int| 0 <= q < blocks.len() ==> self.ids().contains(#[trigger] blocks[q]),
            0 <= p < blocks.len(),
            0 <= b < self.num_active_blocks,
            self.ids()[b] == blocks[p],
            self.placed(blocks, p, cursors, sorted_ids),
        ensures
            cursors[b] < blocks.len(),
            self.placed(
                blocks,
                p + 1,
                cursors.update(b, (cursors[b] + 1) as u32),
                sorted_ids.update(cursors[b] as int, p as u32),
            ),
    {
        let n = blocks.len() as int;
        let id = blocks[p];
        let k = cursors[b] as int;
        let new_cursors = cursors.update(b, (cursors[b] + 1) as u32);
        let new_sorted = sorted_ids.update(k, p as u32);
        self.lemma_index_of(b);
        self.lemma_range_end(blocks, b);
        lemma_count_in_monotonic(blocks, p + 1, n, id);
        lemma_count_in_monotonic(blocks, 0, p, id);
        assert(self.active_blocks@[b].virtual_id == id);
        assert(count_in(blocks, p + 1, id) == count_in(blocks, p, id) + 1);
        assert(k < self.active_blocks@[b].first_particle + self.active_blocks@[b].num_particles);
        assert(self.position_of(blocks, p) == k);

        assert forall|c: int| 0 <= c < self.num_active_blocks implies #[trigger] new_cursors[c]
            == self.active_blocks@[c].first_particle + count_in(
            blocks,
            p + 1,
            self.active_blocks@[c].virtual_id,
        ) by {
            if c != b {
                self.lemma_ids_distinct(c, b);
                assert(self.ids()[c] == self.active_blocks@[c].virtual_id);
                assert(cursors[c] == self.active_blocks@[c].first_particle + count_in(
                    blocks,
                    p,
                    self.active_blocks@[c].virtual_id,
                ));
            }
        }
        assert forall|q: int| 0 <= q < p + 1 implies 0 <= #[trigger] self.position_of(blocks, q)
            < n && new_sorted[self.position_of(blocks, q)] == q by {
            if q < p {
                let c = self.index_of(blocks[q]);
                self.lemma_index_of_active(blocks[q]);
                lemma_count_in_monotonic(blocks, q + 1, p, blocks[q]);
                assert(count_in(blocks, q + 1, blocks[q]) == count_in(blocks, q, blocks[q]) + 1);
                lemma_count_in_monotonic(blocks, 0, q, blocks[q]);
                assert(cursors[c] == self.active_blocks@[c].first_particle + count_in(
                    blocks,
                    p,
                    self.active_blocks@[c].virtual_id,
                ));
                assert(self.position_of(blocks, q) == self.active_blocks@[c].first_particle
                    + count_in(blocks, q, blocks[q]));
                assert(self.active_blocks@[c].first_particle <= self.position_of(blocks, q)
                    < cursors[c]);
                // The place that is written lies behind the cursors.
                lemma_count_in_monotonic(blocks, p, n, blocks[q]);
                if c < b {
                    self.lemma_ranges_ordered(blocks, c, b);
                } else if c > b {
                    self.lemma_ranges_ordered(blocks, b, c);
                }
                assert(self.position_of(blocks, q) != k);
            }
        }
    }

    /// Places every particle in the range of its block, in the order of
    /// the particles.
    ///
    /// The result lists the particles block after block: it holds every
    /// particle index once.
    pub fn finalize_particles_sort(&self, blocks: &Vec<BlockVirtualId>) -> (sorted_ids: Vec<u32>)
        requires
            self.wf(),
            blocks@.len() <= u32::MAX,
            forall|q: int| 0 <= q < blocks@.len() ==> self.ids().contains(#[trigger] blocks@[q]),
            self.ranges_of(blocks@),
        ensures
            self.sorted(blocks@, sorted_ids@),
    {
        let n: usize = blocks.len();
        let nb: usize = self.num_active_blocks as usize;
        let mut cursors: Vec<u32> = Vec::new();
        let mut b: usize = 0;
        while b < nb
            invariant
                b <= nb,
                nb == self.num_active_blocks,
                nb <= self.active_blocks@.len(),
                cursors@.len() == b,
                forall|c: int|
                    0 <= c < b ==> #[trigger] cursors@[c] == self.active_blocks@[c].first_particle,
            decreases nb - b,
        {
            cursors.push(self.active_blocks[b].first_particle);
            b = b + 1;
        }
        let mut sorted_ids: Vec<u32> = Vec::new();
        let mut i: usize = 0;
        while i < n
            invariant
                i <= n,
                sorted_ids@.len() == i,
            decreases n - i,
        {
            sorted_ids.push(0);
            i = i + 1;
        }
        let mut p: usize = 0;
        while p < n
            invariant
                p <= n,
                n == blocks@.len(),
                n <= u32::MAX,
                nb == self.num_active_blocks,
                self.wf(),
                self.ranges_of(blocks@),
                forall|q: int| 0 <= q < blocks@.len() ==> self.ids().contains(#[trigger] blocks@[q]),
                self.placed(blocks@, p as int, cursors@, sorted_ids@),
            decreases n - p,
        {
            let id = blocks[p];
            assert(self.ids().contains(blocks@[p as int]));
            match self.find(id) {
                Some(b) => {
                    proof {
                        self.lemma_place(blocks@, p as int, b as int, cursors@, sorted_ids@);
                    }
                    let k: u32 = cursors[b as usize];
                    sorted_ids.set(k as usize, p as u32);
                    cursors.set(b as usize, k + 1);
                },
                None => {},
            }
            p = p + 1;
        }
        proof {
            assert forall|k: int| 0 <= k < n implies (#[trigger] sorted_ids@[k]) < n
                && self.position_of(blocks@, sorted_ids@[k] as int) == k by {
                let c = lemma_find_range(self.particle_counts(), self.capacity(), k);
                assert(self.particle_counts()[c] > 0);
                assert(c < nb);
                let id = self.active_blocks@[c].virtual_id;
                let q = lemma_nth_occurrence(
                    blocks@,
                    n as int,
                    id,
                    k - self.active_blocks@[c].first_particle,
                );
                assert(self.ids()[c] == id);
                self.lemma_index_of(c);
                assert(self.position_of(blocks@, q) == k);
            }
        }
        sorted_ids
    }

    /// `sorted_ids` lists the particles block after block: particle `p`
    /// stands at its place, and the particle at place `k` has that place.
    pub open spec fn sorted(&self, blocks: Seq<BlockVirtualId>, sorted_ids: Seq<u32>) -> bool {
        &&& sorted_ids.len() == blocks.len()
        &&& forall|p: int|
            0 <= p < blocks.len() ==> 0 <= #[trigger] self.position_of(blocks, p) < blocks.len()
                && sorted_ids[self.position_of(blocks, p)] == p
        &&& forall|k: int|
            0 <= k < blocks.len() ==> (#[trigger] sorted_ids[k]) < blocks.len()
                && self.position_of(blocks, sorted_ids[k] as int) == k
    }

    /// The particle counts of the blocks, as input to the prefix sum.
    pub fn copy_particles_len_to_scan_value(&self) -> (scan_values: U32Vector)
        requires
            self.wf(),
        ensures
            scan_values@ == self.particle_counts(),
    {
        let cap: usize = self.active_blocks.len();
        let mut values: Vec<u32> = Vec::new();
        let mut b: usize = 0;
        while b < cap
            invariant
                b <= cap,
                cap == self.capacity(),
                cap == self.active_blocks@.len(),
                values@.len() == b,
                forall|i: int| 0 <= i < b ==> #[trigger] values@[i] == self.particle_counts()[i],
            decreases cap - b,
        {
            if b < self.num_active_blocks as usize {
                values.push(self.active_blocks[b].num_particles);
            } else {
                values.push(0);
            }
            b = b + 1;
        }
        assert(values@ =~= self.particle_counts());
        U32Vector::from_vec(values)
    }

    /// Every active block starts its range of particles at its scan value.
    pub fn copy_scan_values_to_first_particles(&mut self, scan_values: &U32Vector)
        requires
            old(self).wf(),
            scan_values@.len() == old(self).capacity(),
        ensures
            final(self).wf(),
            final(self).hmap_entries == old(self).hmap_entries,
            final(self).num_active_blocks == old(self).num_active_blocks,
            final(self).ids() == old(self).ids(),
            final(self).active_blocks@.len() == old(self).active_blocks@.len(),
            forall|b: int|
                0 <= b < final(self).num_active_blocks ==> #[trigger] final(self).active_blocks@[b]
                    == (GpuActiveBlockHeader {
                    virtual_id: old(self).active_blocks@[b].virtual_id,
                    first_particle: scan_values@[b],
                    num_particles: old(self).active_blocks@[b].num_particles,
                }),
    {
        let n: usize = self.num_active_blocks as usize;
        let mut b: usize = 0;
        while b < n
            invariant
                b <= n,
                n == self.num_active_blocks,
                old(self).wf(),
                scan_values@.len() == old(self).capacity(),
                self.hmap_entries == old(self).hmap_entries,
                self.num_active_blocks == old(self).num_active_blocks,
                self.active_blocks@.len() == old(self).active_blocks@.len(),
                forall|c: int|
                    0 <= c < b ==> #[trigger] self.active_blocks@[c] == (GpuActiveBlockHeader {
                        virtual_id: old(self).active_blocks@[c].virtual_id,
                        first_particle: scan_values@[c],
                        num_particles: old(self).active_blocks@[c].num_particles,
                    }),
                forall|c: int|
                    b <= c < self.active_blocks@.len() ==> #[trigger] self.active_blocks@[c]
                        == old(self).active_blocks@[c],
            decreases n - b,
        {
            let header = self.active_blocks[b];
            self.active_blocks.set(
                b,
                GpuActiveBlockHeader {
                    virtual_id: header.virtual_id,
                    first_particle: scan_values.get(b),
                    num_particles: header.num_particles,
                },
            );
            b = b + 1;
        }
        proof {
            lemma_same_blocks(*old(self), *self);
        }
    }
}

impl BlockTable {
    /// Rebuilds the table for the particles and sorts them by block.
    ///
    /// The active blocks become the blocks of the particles, in the order
    /// in which the particles touch them. Every header gets the number of
    /// particles of its block and the start of their range, and the result
    /// lists the particle indices block after block. Fails exactly if the
    /// particles lie in more blocks than the table can hold.
    pub fn sort_particles(&mut self, blocks: &Vec<BlockVirtualId>, prefix_sum: &WgPrefixSum) -> (r:
        Result<Vec<u32>, GridError>)
        requires
            old(self).wf(),
            blocks@.len() <= u32::MAX,
        ensures
            final(self).wf(),
            final(self).capacity() == old(self).capacity(),
            r is Ok <==> touched_blocks(blocks@, blocks@.len() as int).len()
                <= old(self).capacity(),
            r is Ok ==> final(self).ids() == touched_blocks(blocks@, blocks@.len() as int)
                && final(self).ranges_of(blocks@) && final(self).sorted(blocks@, r->Ok_0@),
            r is Err ==> r == Err::<Vec<u32>, GridError>(GridError::CapacityExceeded)
                && final(self).ids() == touched_blocks(blocks@, blocks@.len() as int).take(
                old(self).capacity(),
            ) && final(self).headers_empty(),
    {
        self.reset_hmap();
        match self.touch_particle_blocks(blocks) {
            Ok(_) => {},
            Err(e) => {
                return Err(e);
            },
        }
        proof {
            lemma_touched_blocks_grow(blocks@, blocks@.len() as int, blocks@.len() as int);
        }
        self.update_block_particle_count(blocks);
        let ghost counted = *self;
        let mut scan_values = self.copy_particles_len_to_scan_value();
        prefix_sum.eval_cpu(&mut scan_values);
        self.copy_scan_values_to_first_particles(&scan_values);
        proof {
            let counts = counted.particle_counts();
            assert(self.particle_counts() =~= counts);
            assert forall|b: int| 0 <= b < self.num_active_blocks implies (
            #[trigger] self.active_blocks@[b]).num_particles == count_in(
                blocks@,
                blocks@.len() as int,
                self.active_blocks@[b].virtual_id,
            ) && self.active_blocks@[b].first_particle == prefix_total(counts, b) by {
                lemma_prefix_total_monotonic(counts, b, self.capacity());
                assert(counted.active_blocks@[b].first_particle == 0);
            }
        }
        Ok(self.finalize_particles_sort(blocks))
    }

    /// The sorted ids are a permutation of the particle indices: every
    /// entry is a particle index, no index stands at two places, and every
    /// index stands somewhere.
    pub proof fn lemma_sorted_is_permutation(
        &self,
        blocks: Seq<BlockVirtualId>,
        sorted_ids: Seq<u32>,
    )
        requires
            self.sorted(blocks, sorted_ids),
        ensures
            forall|k: int| 0 <= k < sorted_ids.len() ==> (#[trigger] sorted_ids[k]) < blocks.len(),
            forall|k: int, l: int|
                0 <= k < sorted_ids.len() && 0 <= l < sorted_ids.len() && k != l ==> (
                #[trigger] sorted_ids[k]) != (#[trigger] sorted_ids[l]),
            forall|p: int|
                0 <= p < blocks.len() ==> sorted_ids[#[trigger] self.position_of(blocks, p)] == p,
    {
        assert forall|k: int, l: int|
            0 <= k < sorted_ids.len() && 0 <= l < sorted_ids.len() && k != l implies (
            #[trigger] sorted_ids[k]) != (#[trigger] sorted_ids[l]) by {
            assert(self.position_of(blocks, sorted_ids[k] as int) == k);
            assert(self.position_of(blocks, sorted_ids[l] as int) == l);
        }
    }

    /// The ranges of the active blocks partition the sorted particles:
    /// every place lies in the range of exactly one block.
    pub proof fn lemma_ranges_partition(&self, blocks: Seq<BlockVirtualId>, k: int) -> (b: int)
        requires
            self.wf(),
            self.ranges_of(blocks),
            0 <= k < blocks.len(),
        ensures
            0 <= b < self.num_active_blocks,
            self.active_blocks@[b].first_particle <= k < self.active_blocks@[b].first_particle
                + self.active_blocks@[b].num_particles,
            forall|c: int|
                0 <= c < self.num_active_blocks && (
                #[trigger] self.active_blocks@[c]).first_particle <= k
                    < self.active_blocks@[c].first_particle + self.active_blocks@[c].num_particles
                    ==> c == b,
    {
        let b = lemma_find_range(self.particle_counts(), self.capacity(), k);
        assert(self.particle_counts()[b] > 0);
        assert forall|c: int|
            0 <= c < self.num_active_blocks && (
            #[trigger] self.active_blocks@[c]).first_particle <= k
                < self.active_blocks@[c].first_particle + self.active_blocks@[c].num_particles
            implies c == b by {
            if c < b {
                self.lemma_ranges_ordered(blocks, c, b);
            } else if c > b {
                self.lemma_ranges_ordered(blocks, b, c);
            }
        }
        b
    }

    /// Every particle stands in the range of the block in which it lies.
    pub proof fn lemma_particle_in_block_range(&self, blocks: Seq<BlockVirtualId>, p: int)
        requires
            self.wf(),
            self.ranges_of(blocks),
            0 <= p < blocks.len(),
            self.ids().contains(blocks[p]),
        ensures
            ({
                let header = self.active_blocks@[self.index_of(blocks[p])];
                &&& 0 <= self.index_of(blocks[p]) < self.num_active_blocks
                &&& header.virtual_id == blocks[p]
                &&& header.first_particle <= self.position_of(blocks, p) < header.first_particle
                    + header.num_particles
            }),
    {
        self.lemma_index_of_active(blocks[p]);
        lemma_count_in_monotonic(blocks, 0, p, blocks[p]);
        lemma_count_in_monotonic(blocks, p + 1, blocks.len() as int, blocks[p]);
    }
}

} // verus!
