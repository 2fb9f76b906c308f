//! The table of active blocks: an open-addressed hash map from block
//! coordinates to block slots, filled by touching the blocks that hold
//! particles.
//!
//! The capacity of the table is a power of two, fixed when the table is
//! made. A block that does not fit is refused with an error: the table
//! does not grow.

use crate::arith::{is_next_power_of_two, is_power_of_two, next_power_of_two};
use vstd::prelude::*;

verus! {

/// The integer coordinates of a block. In two dimensions `z` is zero.
#[derive(Clone, Copy, PartialEq, Eq, Structural, Debug)]
pub struct BlockVirtualId {
    pub x: i32,
    pub y: i32,
    pub z: i32,
}

/// Number of nodes along each side of a block in two dimensions.
pub const BLOCK_SIDE_2D: i32 = 8;

/// Number of nodes along each side of a block in three dimensions.
pub const BLOCK_SIDE_3D: i32 = 4;

/// The quotient of `a` by the positive `side`, rounded down.
fn floor_div(a: i32, side: i32) -> (q: i32)
    requires
        side == 4 || side == 8,
    ensures
        q * side <= a < q * side + side,
{
    if a >= 0 {
        a / side
    } else {
        -1 - (-(a + 1)) / side
    }
}

impl BlockVirtualId {
    /// The block holds the grid node `(x, y, z)`, for blocks of `side` nodes
    /// along each axis.
    pub open spec fn contains_node(self, x: int, y: int, z: int, side: int) -> bool {
        &&& self.x * side <= x < self.x * side + side
        &&& self.y * side <= y < self.y * side + side
        &&& self.z * side <= z < self.z * side + side
    }

    /// The block that holds the grid node `(x, y)` in two dimensions.
    pub fn of_node_2d(x: i32, y: i32) -> (id: BlockVirtualId)
        ensures
            id.z == 0,
            id.contains_node(x as int, y as int, 0, 8),
    {
        BlockVirtualId { x: floor_div(x, BLOCK_SIDE_2D), y: floor_div(y, BLOCK_SIDE_2D), z: 0 }
    }

    /// The block that holds the grid node `(x, y, z)` in three dimensions.
    pub fn of_node_3d(x: i32, y: i32, z: i32) -> (id: BlockVirtualId)
        ensures
            id.contains_node(x as int, y as int, z as int, 4),
    {
        BlockVirtualId {
            x: floor_div(x, BLOCK_SIDE_3D),
            y: floor_div(y, BLOCK_SIDE_3D),
            z: floor_div(z, BLOCK_SIDE_3D),
        }
    }
}

/// State of a free entry of the hash map.
pub const ENTRY_FREE: u32 = 0;

/// State of an entry of the hash map that holds a block.
pub const ENTRY_OCCUPIED: u32 = 1;

/// An entry of the hash map: the coordinates of a block and its slot.
#[derive(Clone, Copy, PartialEq, Eq, Structural, Debug)]
pub struct GpuGridHashMapEntry {
    pub state: u32,
    pub key: BlockVirtualId,
    pub value: u32,
}

/// The header of an active block: its coordinates and its range of sorted
/// particles.
#[derive(Clone, Copy, PartialEq, Eq, Structural, Debug)]
pub struct GpuActiveBlockHeader {
    pub virtual_id: BlockVirtualId,
    pub first_particle: u32,
    pub num_particles: u32,
}

/// Why a block cannot be touched.
#[derive(Clone, Copy, PartialEq, Eq, Structural, Debug)]
pub enum GridError {
    /// The block is new and every slot of the table is taken.
    CapacityExceeded,
}

/// The hash of a block's coordinates.
pub open spec fn hash_spec(key: BlockVirtualId) -> u32 {
    (key.x as u32).wrapping_mul(73856093u32) ^ (key.y as u32).wrapping_mul(19349663u32) ^ (key.z
        as u32).wrapping_mul(83492791u32)
}

/// The hash of a block's coordinates.
pub fn hash(key: BlockVirtualId) -> (h: u32)
    ensures
        h == hash_spec(key),
{
    (key.x as u32).wrapping_mul(73856093u32) ^ (key.y as u32).wrapping_mul(19349663u32) ^ (key.z
        as u32).wrapping_mul(83492791u32)
}

/// The entry that is probed `d` steps after the entry `start`, in a table
/// of `capacity` entries.
pub open spec fn probe(start: int, d: int, capacity: int) -> int {
    if start + d < capacity {
        start + d
    } else {
        start + d - capacity
    }
}

/// The number of steps from the entry `start` to the entry `i`.
pub open spec fn probe_distance(start: int, i: int, capacity: int) -> int {
    if i >= start {
        i - start
    } else {
        i + capacity - start
    }
}

/// Number of occupied entries among the first `n`.
pub open spec fn occupied_count(entries: Seq<GpuGridHashMapEntry>, n: int) -> int
    decreases n,
{
    if n <= 0 {
        0
    } else {
        occupied_count(entries, n - 1) + if entries[n - 1].state == ENTRY_OCCUPIED {
            1int
        } else {
            0int
        }
    }
}

/// At most `n` of the first `n` entries are occupied, and exactly `n` only
/// if all of them are.
proof fn lemma_occupied_count_bound(entries: Seq<GpuGridHashMapEntry>, n: int)
    requires
        0 <= n <= entries.len(),
    ensures
        0 <= occupied_count(entries, n) <= n,
        occupied_count(entries, n) == n ==> forall|i: int|
            0 <= i < n ==> (#[trigger] entries[i]).state == ENTRY_OCCUPIED,
    decreases n,
{
    if n > 0 {
        lemma_occupied_count_bound(entries, n - 1);
    }
}

/// Occupying one free entry raises the count by one.
proof fn lemma_occupied_count_insert(
    entries: Seq<GpuGridHashMapEntry>,
    i: int,
    e: GpuGridHashMapEntry,
    n: int,
)
    requires
        0 <= i < entries.len(),
        0 <= n <= entries.len(),
        entries[i].state != ENTRY_OCCUPIED,
        e.state == ENTRY_OCCUPIED,
    ensures
        occupied_count(entries.update(i, e), n) == occupied_count(entries, n) + if i < n {
            1int
        } else {
            0int
        },
    decreases n,
{
    if n > 0 {
        lemma_occupied_count_insert(entries, i, e, n - 1);
    }
}

/// The table of active blocks.
pub struct BlockTable {
    pub hmap_entries: Vec<GpuGridHashMapEntry>,
    pub active_blocks: Vec<GpuActiveBlockHeader>,
    pub num_active_blocks: u32,
}

impl BlockTable {
    /// Number of blocks that the table can hold.
    pub open spec fn capacity(&self) -> int {
        self.hmap_entries@.len() as int
    }

    /// The coordinates of the active blocks, in the order of their slots.
    pub open spec fn ids(&self) -> Seq<BlockVirtualId> {
        Seq::new(self.num_active_blocks as nat, |b: int| self.active_blocks@[b].virtual_id)
    }

    /// Where the probing for `key` starts.
    pub open spec fn start_of(&self, key: BlockVirtualId) -> int {
        hash_spec(key) as int % self.capacity()
    }

    /// The entry `i` holds a block.
    pub open spec fn occupied(&self, i: int) -> bool {
        self.hmap_entries@[i].state == ENTRY_OCCUPIED
    }

    /// The table is consistent: every occupied entry names the slot of a
    /// header with its coordinates and can be reached by probing, every
    /// header has an entry, and no two entries hold the same block.
    pub open spec fn wf(&self) -> bool {
        let cap = self.capacity();
        &&& 1 <= cap <= u32::MAX
        &&& is_power_of_two(cap)
        &&& self.active_blocks@.len() == cap
        &&& self.num_active_blocks <= cap
        &&& occupied_count(self.hmap_entries@, cap) == self.num_active_blocks
        &&& forall|i: int|
            0 <= i < cap ==> {
                let e = #[trigger] self.hmap_entries@[i];
                e.state == ENTRY_FREE || e.state == ENTRY_OCCUPIED
            }
        &&& forall|i: int|
            0 <= i < cap && self.occupied(i) ==> {
                let e = #[trigger] self.hmap_entries@[i];
                e.value < self.num_active_blocks && self.active_blocks@[e.value as int].virtual_id
                    == e.key
            }
        &&& forall|i: int, d: int|
            0 <= i < cap && self.occupied(i) && 0 <= d < probe_distance(
                self.start_of(self.hmap_entries@[i].key),
                i,
                cap,
            ) ==> self.occupied(
                #[trigger] probe(self.start_of(self.hmap_entries@[i].key), d, cap),
            )
        &&& forall|i: int, j: int|
            0 <= i < cap && 0 <= j < cap && i != j && self.occupied(i) && self.occupied(j) ==> (
            #[trigger] self.hmap_entries@[i]).key != (#[trigger] self.hmap_entries@[j]).key
        &&& forall|b: int|
            0 <= b < self.num_active_blocks ==> 0 <= #[trigger] self.slot_of(b) < cap
                && self.occupied(self.slot_of(b)) && self.hmap_entries@[self.slot_of(b)].value == b
    }

    /// An entry that holds the block of slot `b`.
    pub open spec fn slot_of(&self, b: int) -> int {
        choose|i: int|
            0 <= i < self.capacity() && self.occupied(i) && self.hmap_entries@[i].value == b
    }

    /// No two active blocks have the same coordinates.
    pub proof fn lemma_ids_distinct(&self, a: int, b: int)
        requires
            self.wf(),
            0 <= a < self.num_active_blocks,
            0 <= b < self.num_active_blocks,
            a != b,
        ensures
            self.ids()[a] != self.ids()[b],
    {
        let i = self.slot_of(a);
        let j = self.slot_of(b);
        assert(self.hmap_entries@[i].key == self.ids()[a]);
        assert(self.hmap_entries@[j].key == self.ids()[b]);
    }

    /// An empty table for at least `capacity` blocks: the capacity is
    /// rounded up to a power of two, which must fit in 32 bits.
    pub fn with_capacity(capacity: u32) -> (table: BlockTable)
        requires
            capacity <= 0x8000_0000,
        ensures
            table.wf(),
            is_next_power_of_two(capacity as int, table.capacity()),
            table.num_active_blocks == 0,
    {
        let capacity: u32 = next_power_of_two(capacity);
        let origin = BlockVirtualId { x: 0, y: 0, z: 0 };
        let mut hmap_entries: Vec<GpuGridHashMapEntry> = Vec::new();
        let mut active_blocks: Vec<GpuActiveBlockHeader> = Vec::new();
        let mut i: u32 = 0;
        while i < capacity
            invariant
                i <= capacity,
                hmap_entries@.len() == i,
                active_blocks@.len() == i,
                forall|k: int| 0 <= k < i ==> (#[trigger] hmap_entries@[k]).state == ENTRY_FREE,
                occupied_count(hmap_entries@, i as int) == 0,
            decreases capacity - i,
        {
            let ghost before = hmap_entries@;
            hmap_entries.push(GpuGridHashMapEntry { state: ENTRY_FREE, key: origin, value: 0 });
            active_blocks.push(
                GpuActiveBlockHeader { virtual_id: origin, first_particle: 0, num_particles: 0 },
            );
            proof {
                lemma_occupied_count_prefix(before, hmap_entries@, i as int);
            }
            i = i + 1;
        }
        BlockTable { hmap_entries, active_blocks, num_active_blocks: 0 }
    }

    /// Empties the table: no block is active.
    pub fn reset_hmap(&mut self)
        requires
            old(self).wf(),
        ensures
            final(self).wf(),
            final(self).capacity() == old(self).capacity(),
            final(self).num_active_blocks == 0,
    {
        let n: usize = self.hmap_entries.len();
        let mut i: usize = 0;
        while i < n
            invariant
                i <= n,
                n == self.hmap_entries@.len(),
                n == old(self).hmap_entries@.len(),
                self.active_blocks == old(self).active_blocks,
                forall|k: int| 0 <= k < i ==> (#[trigger] self.hmap_entries@[k]).state == ENTRY_FREE,
                occupied_count(self.hmap_entries@, i as int) == 0,
            decreases n - i,
        {
            let ghost before = self.hmap_entries@;
            let e = self.hmap_entries[i];
            self.hmap_entries.set(
                i,
                GpuGridHashMapEntry { state: ENTRY_FREE, key: e.key, value: e.value },
            );
            proof {
                lemma_occupied_count_prefix(before, self.hmap_entries@, i as int);
            }
            i = i + 1;
        }
        self.num_active_blocks = 0;
    }
}

/// Where all of the first `n` entries are occupied, the count is `n`.
proof fn lemma_occupied_count_full(entries: Seq<GpuGridHashMapEntry>, n: int)
    requires
        0 <= n <= entries.len(),
        forall|i: int| 0 <= i < n ==> (#[trigger] entries[i]).state == ENTRY_OCCUPIED,
    ensures
        occupied_count(entries, n) == n,
    decreases n,
{
    if n > 0 {
        lemma_occupied_count_full(entries, n - 1);
    }
}

impl BlockTable {
    /// No entry holds `key`, given that probing for it met only other
    /// blocks and then a free entry, or other blocks in every entry.
    proof fn lemma_absent(&self, key: BlockVirtualId, d: int)
        requires
            self.wf(),
            0 <= d <= self.capacity(),
            forall|k: int|
                0 <= k < d ==> self.occupied(#[trigger] probe(self.start_of(key), k, self.capacity()))
                    && self.hmap_entries@[probe(self.start_of(key), k, self.capacity())].key
                    != key,
            d < self.capacity() ==> !self.occupied(probe(self.start_of(key), d, self.capacity())),
        ensures
            forall|j: int|
                0 <= j < self.capacity() && self.occupied(j) ==> (
                #[trigger] self.hmap_entries@[j]).key != key,
            !self.ids().contains(key),
    {
        let cap = self.capacity();
        let start = self.start_of(key);
        assert forall|j: int| 0 <= j < cap && self.occupied(j) implies (
        #[trigger] self.hmap_entries@[j]).key != key by {
            if self.hmap_entries@[j].key == key {
                let dj = probe_distance(start, j, cap);
                assert(probe(start, dj, cap) == j);
                if dj < d {
                    assert(self.hmap_entries@[probe(start, dj, cap)].key != key);
                } else {
                    assert(d < cap);
                    if dj > d {
                        assert(self.occupied(probe(start, d, cap)));
                    }
                }
            }
        }
        if self.ids().contains(key) {
            let b = choose|b: int| 0 <= b < self.ids().len() && self.ids()[b] == key;
            let i = self.slot_of(b);
            assert(self.hmap_entries@[i].key == key);
        }
    }

    /// The slot of the block `key`, if the block is active.
    pub fn find(&self, key: BlockVirtualId) -> (r: Option<u32>)
        requires
            self.wf(),
        ensures
            match r {
                Some(b) => b < self.num_active_blocks && self.ids()[b as int] == key,
                None => !self.ids().contains(key),
            },
    {
        let cap: usize = self.hmap_entries.len();
        let start: usize = (hash(key) as usize) % cap;
        let mut i: usize = start;
        let mut d: usize = 0;
        while d < cap
            invariant
                self.wf(),
                cap == self.capacity(),
                start == self.start_of(key),
                d <= cap,
                d < cap ==> i == probe(start as int, d as int, cap as int),
                forall|k: int|
                    0 <= k < d ==> self.occupied(#[trigger] probe(start as int, k, cap as int))
                        && self.hmap_entries@[probe(start as int, k, cap as int)].key != key,
            decreases cap - d,
        {
            let e = self.hmap_entries[i];
            if e.state != ENTRY_OCCUPIED {
                proof {
                    self.lemma_absent(key, d as int);
                }
                return None;
            }
            if e.key == key {
                return Some(e.value);
            }
            d = d + 1;
            i = if i + 1 == cap {
                0
            } else {
                i + 1
            };
        }
        proof {
            self.lemma_absent(key, d as int);
        }
        None
    }

    /// Makes the block `key` active and returns its slot.
    ///
    /// A block that is active already keeps its slot and nothing changes.
    /// A new block takes the next slot, with a header that holds no
    /// particle. A new block for which no slot is left is refused, and
    /// nothing changes.
    pub fn touch(&mut self, key: BlockVirtualId) -> (r: Result<u32, GridError>)
        requires
            old(self).wf(),
        ensures
            final(self).wf(),
            final(self).capacity() == old(self).capacity(),
            touched_one(*old(self), key, r, *final(self)),
    {
        let cap: usize = self.hmap_entries.len();
        let start: usize = (hash(key) as usize) % cap;
        let mut i: usize = start;
        let mut d: usize = 0;
        while d < cap
            invariant
                *self == *old(self),
                self.wf(),
                cap == self.capacity(),
                start == self.start_of(key),
                d <= cap,
                d < cap ==> i == probe(start as int, d as int, cap as int),
                forall|k: int|
                    0 <= k < d ==> self.occupied(#[trigger] probe(start as int, k, cap as int))
                        && self.hmap_entries@[probe(start as int, k, cap as int)].key != key,
            decreases cap - d,
        {
            let e = self.hmap_entries[i];
            if e.state != ENTRY_OCCUPIED {
                proof {
                    self.lemma_absent(key, d as int);
                    lemma_occupied_count_bound(self.hmap_entries@, cap as int);
                }
                if self.num_active_blocks as usize >= cap {
                    return Err(GridError::CapacityExceeded);
                }
                let slot: u32 = self.num_active_blocks;
                let ghost before = *self;
                let entry = GpuGridHashMapEntry { state: ENTRY_OCCUPIED, key, value: slot };
                self.hmap_entries.set(i, entry);
                self.active_blocks.set(
                    slot as usize,
                    GpuActiveBlockHeader { virtual_id: key, first_particle: 0, num_particles: 0 },
                );
                self.num_active_blocks = slot + 1;
                proof {
                    let capi = cap as int;
                    lemma_occupied_count_insert(before.hmap_entries@, i as int, entry, capi);
                    assert(probe_distance(start as int, i as int, capi) == d);
                    assert forall|j: int, k: int|
                        0 <= j < capi && self.occupied(j) && 0 <= k < probe_distance(
                            self.start_of(self.hmap_entries@[j].key),
                            j,
                            capi,
                        ) implies self.occupied(
                        #[trigger] probe(self.start_of(self.hmap_entries@[j].key), k, capi),
                    ) by {
                        let target = probe(self.start_of(self.hmap_entries@[j].key), k, capi);
                        if j != i {
                            assert(before.occupied(j));
                            assert(before.occupied(
                                probe(before.start_of(before.hmap_entries@[j].key), k, capi),
                            ));
                        } else {
                            assert(before.occupied(probe(start as int, k, capi)));
                        }
                    }
                    assert forall|b: int| 0 <= b < self.num_active_blocks implies 0
                        <= #[trigger] self.slot_of(b) < capi && self.occupied(self.slot_of(b))
                        && self.hmap_entries@[self.slot_of(b)].value == b by {
                        if b < slot {
                            let w = before.slot_of(b);
                            assert(0 <= w < capi && self.occupied(w) && self.hmap_entries@[w].value
                                == b);
                        } else {
                            assert(0 <= i < capi && self.occupied(i as int)
                                && self.hmap_entries@[i as int].value == b);
                        }
                    }
                    assert(self.ids() =~= before.ids().push(key));
                }
                return Ok(slot);
            }
            if e.key == key {
                proof {
                    assert(self.ids()[e.value as int] == key);
                }
                return Ok(e.value);
            }
            d = d + 1;
            i = if i + 1 == cap {
                0
            } else {
                i + 1
            };
        }
        proof {
            self.lemma_absent(key, d as int);
            assert forall|j: int| 0 <= j < cap implies (#[trigger] self.hmap_entries@[j]).state
                == ENTRY_OCCUPIED by {
                let dj = probe_distance(start as int, j, cap as int);
                assert(probe(start as int, dj, cap as int) == j);
            }
            lemma_occupied_count_full(self.hmap_entries@, cap as int);
        }
        Err(GridError::CapacityExceeded)
    }
}

/// A table stays consistent, with the same active blocks, when only the
/// particle ranges in its headers change.
pub proof fn lemma_same_blocks(before: BlockTable, after: BlockTable)
    requires
        before.wf(),
        after.hmap_entries@ == before.hmap_entries@,
        after.num_active_blocks == before.num_active_blocks,
        after.active_blocks@.len() == before.active_blocks@.len(),
        forall|b: int|
            0 <= b < before.num_active_blocks ==> (#[trigger] after.active_blocks@[b]).virtual_id
                == before.active_blocks@[b].virtual_id,
    ensures
        after.wf(),
        after.ids() == before.ids(),
{
    let cap = after.capacity();
    assert(after.ids() =~= before.ids());
    assert forall|i: int, d: int|
        0 <= i < cap && after.occupied(i) && 0 <= d < probe_distance(
            after.start_of(after.hmap_entries@[i].key),
            i,
            cap,
        ) implies after.occupied(
        #[trigger] probe(after.start_of(after.hmap_entries@[i].key), d, cap),
    ) by {
        assert(before.occupied(i));
        assert(before.occupied(probe(before.start_of(before.hmap_entries@[i].key), d, cap)));
    }
    assert forall|i: int| 0 <= i < cap && after.occupied(i) implies ({
        let e = #[trigger] after.hmap_entries@[i];
        e.value < after.num_active_blocks && after.active_blocks@[e.value as int].virtual_id
            == e.key
    }) by {
        assert(before.occupied(i));
    }
    assert forall|c: int| 0 <= c < after.num_active_blocks implies 0 <= #[trigger] after.slot_of(
        c,
    ) < cap && after.occupied(after.slot_of(c)) && after.hmap_entries@[after.slot_of(c)].value
        == c by {
        assert(after.slot_of(c) == before.slot_of(c));
    }
}

/// The arguments of an indirect dispatch: the numbers of work groups along
/// the three axes.
#[derive(Clone, Copy, PartialEq, Eq, Structural, Debug)]
pub struct DispatchIndirectArgs {
    pub x: u32,
    pub y: u32,
    pub z: u32,
}

impl BlockTable {
    /// The work-group counts of the passes that follow the touch passes:
    /// first for the kernels that run one lane per active block, 64 lanes
    /// to a work group, then for the kernels that run one work group per
    /// active block.
    pub fn init_indirect_workgroups(&self) -> (groups: (DispatchIndirectArgs, DispatchIndirectArgs))
        ensures
            groups.0 == (DispatchIndirectArgs {
                x: crate::arith::div_ceil_spec(self.num_active_blocks as int, 64) as u32,
                y: 1,
                z: 1,
            }),
            groups.1 == (DispatchIndirectArgs { x: self.num_active_blocks, y: 1, z: 1 }),
    {
        (
            DispatchIndirectArgs {
                x: crate::arith::div_ceil(self.num_active_blocks, 64),
                y: 1,
                z: 1,
            },
            DispatchIndirectArgs { x: self.num_active_blocks, y: 1, z: 1 },
        )
    }
}

/// What touching the block `key` makes of a table.
pub open spec fn touched_one(
    before: BlockTable,
    key: BlockVirtualId,
    r: Result<u32, GridError>,
    after: BlockTable,
) -> bool {
    if before.ids().contains(key) {
        &&& after == before
        &&& r is Ok
        &&& r->Ok_0 < before.num_active_blocks
        &&& before.ids()[r->Ok_0 as int] == key
    } else if before.num_active_blocks < before.capacity() {
        &&& r == Ok::<u32, GridError>(before.num_active_blocks)
        &&& after.num_active_blocks == before.num_active_blocks + 1
        &&& after.ids() == before.ids().push(key)
        &&& after.active_blocks@ == before.active_blocks@.update(
            before.num_active_blocks as int,
            GpuActiveBlockHeader { virtual_id: key, first_particle: 0, num_particles: 0 },
        )
    } else {
        &&& after == before
        &&& r == Err::<u32, GridError>(GridError::CapacityExceeded)
    }
}

/// The count over the first `n` entries depends on these entries only.
proof fn lemma_occupied_count_prefix(
    a: Seq<GpuGridHashMapEntry>,
    b: Seq<GpuGridHashMapEntry>,
    n: int,
)
    requires
        0 <= n <= a.len(),
        n <= b.len(),
        forall|i: int| 0 <= i < n ==> a[i] == b[i],
    ensures
        occupied_count(a, n) == occupied_count(b, n),
    decreases n,
{
    if n > 0 {
        lemma_occupied_count_prefix(a, b, n - 1);
    }
}

} // verus!
