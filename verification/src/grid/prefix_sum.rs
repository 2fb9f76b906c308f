//! Exclusive prefix sum over `u32` values.
//!
//! The scan shifts the running totals by one place, as if a zero had been
//! put in front of the input: entry `i` of the result is the sum of the
//! entries before `i`, reduced modulo `2^32`.

use crate::arith::{div_ceil, div_ceil_spec};
use crate::dvector::U32Vector;
use crate::queue::{
    direct, group, Buffer, InvocationView, KernelInvocationBuilder, KernelInvocationQueue,
    Pipeline,
};
use vstd::prelude::*;

verus! {

/// Sum of the first `n` entries of `s`, as a mathematical integer.
pub open spec fn prefix_total(s: Seq<u32>, n: int) -> int
    decreases n,
{
    if n <= 0 {
        0
    } else {
        prefix_total(s, n - 1) + s[n - 1] as int
    }
}

/// The residue of `x` modulo `2^32`.
pub open spec fn wrap_u32(x: int) -> u32 {
    (x % 0x1_0000_0000) as u32
}

/// The exclusive scan of `s` in `u32` arithmetic.
pub open spec fn exclusive_scan(s: Seq<u32>) -> Seq<u32> {
    Seq::new(s.len(), |i: int| wrap_u32(prefix_total(s, i)))
}

/// A prefix total is never negative, and grows with the prefix.
pub proof fn lemma_prefix_total_monotonic(s: Seq<u32>, i: int, j: int)
    requires
        0 <= i <= j,
    ensures
        0 <= prefix_total(s, i) <= prefix_total(s, j),
    decreases j,
{
    if i < j {
        lemma_prefix_total_monotonic(s, i, j - 1);
    } else if j > 0 {
        lemma_prefix_total_monotonic(s, i - 1, j - 1);
    }
}

/// The scan starts at zero.
pub proof fn lemma_exclusive_scan_first(s: Seq<u32>)
    requires
        s.len() >= 1,
    ensures
        exclusive_scan(s)[0] == 0,
{
}

/// Where the sum of all entries fits in 32 bits, every entry of the scan
/// is the sum of the entries before it.
pub proof fn lemma_exclusive_scan_exact(s: Seq<u32>, i: int)
    requires
        0 <= i < s.len(),
        prefix_total(s, s.len() as int) <= u32::MAX,
    ensures
        exclusive_scan(s)[i] == prefix_total(s, i),
{
    lemma_prefix_total_monotonic(s, i, s.len() as int);
}

/// Adding one more entry in `u32` arithmetic keeps the residue of the total.
pub proof fn lemma_wrap_step(total: int, x: u32)
    requires
        total >= 0,
    ensures
        wrap_u32(total).wrapping_add(x) == wrap_u32(total + x),
{
    let m = 0x1_0000_0000int;
    let r = total % m;
    assert(total == m * (total / m) + r) by (nonlinear_arith)
        requires
            r == total % m,
            m == 0x1_0000_0000int,
    ;
    assert(0 <= r < m);
    if r + x >= m {
        assert((total + x) % m == r + x - m) by (nonlinear_arith)
            requires
                total == m * (total / m) + r,
                0 <= r + x - m < m,
                m == 0x1_0000_0000int,
        ;
    } else {
        assert((total + x) % m == r + x) by (nonlinear_arith)
            requires
                total == m * (total / m) + r,
                0 <= r + x < m,
                m == 0x1_0000_0000int,
        ;
    }
}

/// Lengths of the auxiliary buffers of a scan whose first auxiliary buffer
/// holds `len` group totals: each level holds one total per group of the
/// level below, down to a last level of one element.
pub open spec fn stage_chain(len: int) -> Seq<u32>
    decreases len,
{
    if len <= 1 {
        seq![1u32]
    } else {
        seq![len as u32] + stage_chain(div_ceil_spec(len, 256))
    }
}

/// A shorter first level never needs more levels.
pub proof fn lemma_stage_chain_monotonic(a: int, b: int)
    requires
        a <= b,
    ensures
        1 <= stage_chain(a).len() <= stage_chain(b).len(),
    decreases b,
{
    if b <= 1 {
    } else if a <= 1 {
        lemma_stage_chain_monotonic(1, div_ceil_spec(b, 256));
    } else {
        assert(div_ceil_spec(a, 256) <= div_ceil_spec(b, 256));
        lemma_stage_chain_monotonic(div_ceil_spec(a, 256), div_ceil_spec(b, 256));
    }
}

/// The group scan of `data` into the first level of totals.
pub open spec fn scan_data(data: Buffer, stages: Seq<u32>) -> InvocationView {
    direct(Pipeline::PrefixSum, seq![group(0, seq![data, Buffer::PrefixSumStage(0)])], stages[0])
}

/// The group scan of level `i` into level `i + 1`.
pub open spec fn scan_stage(stages: Seq<u32>, i: int) -> InvocationView {
    direct(
        Pipeline::PrefixSum,
        seq![
            group(
                0,
                seq![Buffer::PrefixSumStage(i as usize), Buffer::PrefixSumStage((i + 1) as usize)],
            ),
        ],
        stages[i + 1],
    )
}

/// The scanned totals of level `i + 1` added to the groups of level `i`.
pub open spec fn add_stage(stages: Seq<u32>, i: int) -> InvocationView {
    direct(
        Pipeline::AddDataGrp,
        seq![
            group(
                0,
                seq![Buffer::PrefixSumStage(i as usize), Buffer::PrefixSumStage((i + 1) as usize)],
            ),
        ],
        stages[i + 1],
    )
}

/// The scanned totals of the first level added to the groups of `data`.
pub open spec fn add_data(data: Buffer, stages: Seq<u32>) -> InvocationView {
    direct(Pipeline::AddDataGrp, seq![group(0, seq![data, Buffer::PrefixSumStage(0)])], stages[0])
}

/// The group scans of the levels `0 .. num_stages - 1`, lowest first.
pub open spec fn up_sweep(stages: Seq<u32>, num_stages: int) -> Seq<InvocationView> {
    Seq::new((num_stages - 1) as nat, |i: int| scan_stage(stages, i))
}

/// The additions into the levels `num_stages - 3 .. 0`, highest first.
pub open spec fn down_sweep(stages: Seq<u32>, num_stages: int) -> Seq<InvocationView> {
    Seq::new(
        if num_stages > 2 {
            (num_stages - 2) as nat
        } else {
            0
        },
        |k: int| add_stage(stages, num_stages - 3 - k),
    )
}

/// The invocations of one scan of `data`, over auxiliary buffers of the
/// lengths `stages`, of which the first `num_stages` take part: the group
/// scans from the data up to the last level, then the totals added back from
/// the last level down to the data.
pub open spec fn scan_invocations(data: Buffer, stages: Seq<u32>, num_stages: int) -> Seq<
    InvocationView,
> {
    seq![scan_data(data, stages)] + up_sweep(stages, num_stages) + down_sweep(stages, num_stages)
        + if num_stages > 1 {
        seq![add_data(data, stages)]
    } else {
        Seq::<InvocationView>::empty()
    }
}

/// One level of auxiliary storage: a buffer of `capacity` group totals.
#[derive(Clone, Copy, PartialEq, Eq, Structural, Debug)]
pub struct PrefixSumStage {
    pub capacity: u32,
}

/// The auxiliary buffers of the scan, kept from one scan to the next.
pub struct PrefixSumWorkspace {
    pub stages: Vec<PrefixSumStage>,
    pub num_stages: usize,
}

impl PrefixSumWorkspace {
    /// The lengths of the auxiliary buffers, first level first.
    pub open spec fn capacities(&self) -> Seq<u32> {
        self.stages@.map_values(|s: PrefixSumStage| s.capacity)
    }

    /// Either nothing was reserved yet, or the buffers form a chain that ends
    /// in one element and the levels in use are a front part of it.
    pub open spec fn wf(&self) -> bool {
        if self.stages@.len() == 0 {
            self.num_stages == 0
        } else {
            &&& self.stages@[0].capacity >= 1
            &&& self.capacities() == stage_chain(self.stages@[0].capacity as int)
            &&& 1 <= self.num_stages <= self.stages@.len()
        }
    }

    /// Whether the workspace is consistent.
    pub fn is_wf(&self) -> (b: bool)
        ensures
            b == self.wf(),
    {
        let n: usize = self.stages.len();
        if n == 0 {
            return self.num_stages == 0;
        }
        let first: u32 = self.stages[0].capacity;
        if first < 1 || self.num_stages < 1 || self.num_stages > n {
            return false;
        }
        let ghost chain = stage_chain(first as int);
        let mut expected: u32 = first;
        let mut i: usize = 0;
        proof {
            assert(self.capacities().take(0) + stage_chain(expected as int) =~= chain);
        }
        while i < n
            invariant
                i <= n,
                n == self.stages@.len(),
                n == self.capacities().len(),
                chain == stage_chain(first as int),
                first == self.stages@[0].capacity,
                first >= 1,
                1 <= self.num_stages <= n,
                expected >= 1,
                self.capacities().take(i as int) + stage_chain(expected as int) == chain,
            decreases n - i,
        {
            let ghost rest = stage_chain(expected as int);
            proof {
                assert(chain[i as int] == rest[0]);
                assert(self.capacities()[i as int] == self.stages@[i as int].capacity);
            }
            if self.stages[i].capacity != expected {
                proof {
                    assert(rest[0] == expected);
                }
                return false;
            }
            if expected == 1 {
                // The chain ends here: so must the buffers.
                proof {
                    assert(rest =~= seq![1u32]);
                    assert(chain.len() == i + 1);
                    if i + 1 == n {
                        assert(self.capacities() =~= self.capacities().take(i as int).push(1u32));
                        assert(self.capacities() =~= chain);
                    }
                }
                return i + 1 == n;
            }
            let next: u32 = div_ceil(expected, WgPrefixSum::THREADS);
            proof {
                assert(rest =~= seq![expected] + stage_chain(next as int));
                assert(self.capacities().take(i + 1) =~= self.capacities().take(i as int).push(
                    expected,
                ));
                assert(self.capacities().take(i + 1) + stage_chain(next as int) =~= chain);
            }
            expected = next;
            i = i + 1;
        }
        proof {
            // The buffers end before the chain does.
            assert(self.capacities().take(n as int) =~= self.capacities());
            assert(chain.len() == n + stage_chain(expected as int).len());
            lemma_stage_chain_monotonic(expected as int, expected as int);
        }
        false
    }

    /// A workspace with no buffer.
    pub fn new() -> (w: PrefixSumWorkspace)
        ensures
            w.wf(),
            w.stages@.len() == 0,
            w.num_stages == 0,
    {
        PrefixSumWorkspace { stages: Vec::new(), num_stages: 0 }
    }

    /// A workspace sized for scanning `buffer_len` values.
    pub fn with_capacity(buffer_len: u32) -> (w: PrefixSumWorkspace)
        ensures
            w.wf(),
            w.capacities() == stage_chain(div_ceil_spec(buffer_len as int, 256)),
            w.num_stages == w.stages@.len(),
    {
        let mut result = PrefixSumWorkspace { stages: Vec::new(), num_stages: 0 };
        result.reserve(buffer_len);
        result
    }

    /// Makes the workspace fit a scan of `buffer_len` values.
    ///
    /// Where the first level is missing or too short, all levels are laid
    /// out anew. Where it is long enough, the buffers stay. Either way the
    /// number of levels in use is the number that `buffer_len` values need,
    /// whatever the workspace was used for before. A scan of no value
    /// takes one level of one element.
    pub fn reserve(&mut self, buffer_len: u32)
        requires
            old(self).wf(),
        ensures
            final(self).wf(),
            reserved(*old(self), buffer_len, *final(self)),
    {
        let first_len: u32 = div_ceil(buffer_len, WgPrefixSum::THREADS);
        let mut stage_len: u32 = first_len;
        if self.stages.len() == 0 || self.stages[0].capacity < stage_len {
            // Lay the auxiliary buffers out anew.
            self.stages.clear();
            assert(self.capacities() =~= Seq::<u32>::empty());
            while stage_len > 1
                invariant
                    self.capacities() + stage_chain(stage_len as int) == stage_chain(
                        first_len as int,
                    ),
                decreases stage_len,
            {
                let ghost before = self.capacities();
                self.stages.push(PrefixSumStage { capacity: stage_len });
                let next: u32 = div_ceil(stage_len, WgPrefixSum::THREADS);
                proof {
                    assert(self.capacities() =~= before.push(stage_len));
                    assert(before.push(stage_len) + stage_chain(next as int) =~= before
                        + stage_chain(stage_len as int));
                }
                stage_len = next;
            }
            // The last level always has only one element.
            let ghost before = self.capacities();
            self.stages.push(PrefixSumStage { capacity: 1 });
            proof {
                assert(self.capacities() =~= before.push(1u32));
                assert(before.push(1u32) =~= before + stage_chain(stage_len as int));
                assert(self.capacities()[0] == stage_chain(first_len as int)[0]);
            }
            self.num_stages = self.stages.len();
        } else {
            // The buffers are long enough: only the levels in use are set.
            let mut levels: usize = 0;
            proof {
                lemma_stage_chain_monotonic(first_len as int, self.stages@[0].capacity as int);
                assert(self.capacities().len() == self.stages@.len());
            }
            while stage_len > 1
                invariant
                    levels + stage_chain(stage_len as int).len() == stage_chain(first_len as int).len(),
                    stage_chain(first_len as int).len() <= usize::MAX,
                decreases stage_len,
            {
                levels = levels + 1;
                stage_len = div_ceil(stage_len, WgPrefixSum::THREADS);
            }
            // The last level always has only one element.
            levels = levels + 1;
            self.num_stages = levels;
        }
    }
}

/// What `reserve` makes of a workspace `before` for a scan of `buffer_len`
/// values.
pub open spec fn reserved(before: PrefixSumWorkspace, buffer_len: u32, after: PrefixSumWorkspace)
    -> bool {
    let stage_len = div_ceil_spec(buffer_len as int, 256);
    if before.stages@.len() == 0 || before.stages@[0].capacity < stage_len {
        &&& after.capacities() == stage_chain(stage_len)
        &&& after.num_stages == after.stages@.len()
        &&& after.num_stages >= 1
    } else {
        &&& after.stages@ == before.stages@
        &&& after.num_stages == stage_chain(stage_len).len()
    }
}

/// The lengths of the auxiliary buffers after `reserve`.
pub open spec fn reserved_stages(before: PrefixSumWorkspace, buffer_len: u32) -> Seq<u32> {
    let stage_len = div_ceil_spec(buffer_len as int, 256);
    if before.stages@.len() == 0 || before.stages@[0].capacity < stage_len {
        stage_chain(stage_len)
    } else {
        before.capacities()
    }
}

/// The number of levels in use after `reserve`.
pub open spec fn reserved_num_stages(buffer_len: u32) -> int {
    stage_chain(div_ceil_spec(buffer_len as int, 256)).len() as int
}

/// `reserve` decides the lengths of the buffers and the number of levels
/// in use.
pub proof fn lemma_reserved_is_function(
    before: PrefixSumWorkspace,
    buffer_len: u32,
    after: PrefixSumWorkspace,
)
    requires
        reserved(before, buffer_len, after),
    ensures
        after.capacities() == reserved_stages(before, buffer_len),
        after.num_stages == reserved_num_stages(buffer_len),
{
    assert(after.capacities().len() == after.stages@.len());
}

/// A workspace that fits a scan stays as it is when it is made to fit a
/// scan of the same length again.
pub proof fn lemma_reserve_again(
    before: PrefixSumWorkspace,
    buffer_len: u32,
    fitted: PrefixSumWorkspace,
    again: PrefixSumWorkspace,
)
    requires
        before.wf(),
        reserved(before, buffer_len, fitted),
        reserved(fitted, buffer_len, again),
    ensures
        again.capacities() == fitted.capacities(),
        again.num_stages == fitted.num_stages,
        reserved(before, buffer_len, again),
{
    let stage_len = div_ceil_spec(buffer_len as int, 256);
    lemma_stage_chain_monotonic(stage_len, stage_len);
    assert(fitted.capacities().len() == fitted.stages@.len());
    assert(again.capacities().len() == again.stages@.len());
    if before.stages@.len() == 0 || before.stages@[0].capacity < stage_len {
        assert(fitted.capacities()[0] == stage_chain(stage_len)[0]);
        assert(fitted.stages@[0].capacity == fitted.capacities()[0]);
        if stage_len <= 1 {
            assert(fitted.stages@[0].capacity == 1);
        } else {
            assert(stage_chain(stage_len)[0] == stage_len as u32);
        }
    }
}

/// Compute kernels of the prefix sum.
pub struct WgPrefixSum {}

impl WgPrefixSum {
    /// Number of elements that one work group scans.
    pub const THREADS: u32 = 256;

    /// Queues the scan of the `data_len` values of `data`, in place.
    ///
    /// The workspace is first made to fit `data_len` values.
    pub fn queue(
        &self,
        queue: &mut KernelInvocationQueue,
        workspace: &mut PrefixSumWorkspace,
        data: Buffer,
        data_len: u32,
    )
        requires
            old(workspace).wf(),
        ensures
            final(workspace).wf(),
            reserved(*old(workspace), data_len, *final(workspace)),
            final(queue)@ == old(queue)@ + scan_invocations(
                data,
                final(workspace).capacities(),
                final(workspace).num_stages as int,
            ),
    {
        workspace.reserve(data_len);
        let ghost stages = workspace.capacities();
        let ghost n = workspace.num_stages as int;
        let ghost q0 = queue@;
        let num_stages: usize = workspace.num_stages;
        proof {
            lemma_stage_chain_monotonic(
                div_ceil_spec(data_len as int, 256),
                div_ceil_spec(data_len as int, 256),
            );
            assert(stages.len() == workspace.stages@.len());
        }
        let ngroups0: u32 = workspace.stages[0].capacity;
        KernelInvocationBuilder::new(Pipeline::PrefixSum).bind0(
            vec![data, Buffer::PrefixSumStage(0)],
        ).queue(queue, ngroups0);
        let ghost q1 = q0 + seq![scan_data(data, stages)];
        assert(queue@ =~= q1 + up_sweep(stages, n).take(0));

        let mut i: usize = 0;
        while i < num_stages - 1
            invariant
                workspace.capacities() == stages,
                stages.len() == workspace.stages@.len(),
                num_stages == n,
                1 <= num_stages <= workspace.stages@.len(),
                i <= num_stages - 1,
                queue@ == q1 + up_sweep(stages, n).take(i as int),
            decreases num_stages - i,
        {
            let ngroups: u32 = workspace.stages[i + 1].capacity;
            KernelInvocationBuilder::new(Pipeline::PrefixSum).bind0(
                vec![Buffer::PrefixSumStage(i), Buffer::PrefixSumStage(i + 1)],
            ).queue(queue, ngroups);
            assert(queue@ =~= q1 + up_sweep(stages, n).take(i + 1));
            i = i + 1;
        }
        let ghost q2 = q1 + up_sweep(stages, n);
        assert(queue@ =~= q2 + down_sweep(stages, n).take(0));

        if num_stages > 2 {
            let mut k: usize = 0;
            while k < num_stages - 2
                invariant
                    workspace.capacities() == stages,
                    stages.len() == workspace.stages@.len(),
                    num_stages == n,
                    2 < num_stages <= workspace.stages@.len(),
                    k <= num_stages - 2,
                    queue@ == q2 + down_sweep(stages, n).take(k as int),
                decreases num_stages - k,
            {
                let i: usize = num_stages - 3 - k;
                let ngroups: u32 = workspace.stages[i + 1].capacity;
                KernelInvocationBuilder::new(Pipeline::AddDataGrp).bind0(
                    vec![Buffer::PrefixSumStage(i), Buffer::PrefixSumStage(i + 1)],
                ).queue(queue, ngroups);
                assert(queue@ =~= q2 + down_sweep(stages, n).take(k + 1));
                k = k + 1;
            }
        }
        let ghost q3 = q2 + down_sweep(stages, n);
        assert(queue@ =~= q3);

        if num_stages > 1 {
            KernelInvocationBuilder::new(Pipeline::AddDataGrp).bind0(
                vec![data, Buffer::PrefixSumStage(0)],
            ).queue(queue, ngroups0);
        }
        assert(queue@ =~= q0 + scan_invocations(data, stages, n));
    }

    /// Sequential exclusive scan, in place.
    ///
    /// The vector must hold at least one entry.
    pub fn eval_cpu(&self, v: &mut U32Vector)
        requires
            old(v)@.len() >= 1,
        ensures
            final(v)@ == exclusive_scan(old(v)@),
    {
        let n: usize = v.len();
        let ghost input = v@;
        let mut i: usize = 0;
        proof {
            assert(prefix_total(input, 0) == 0);
            assert(prefix_total(input, 1) == input[0] as int);
        }
        // Running totals: entry `j` becomes the sum of the entries up to and
        // including `j`.
        while i < n - 1
            invariant
                n == input.len(),
                n >= 1,
                i <= n - 1,
                v@.len() == n,
                forall|j: int| 0 <= j <= i ==> #[trigger] v@[j] == wrap_u32(prefix_total(input, j + 1)),
                forall|j: int| i < j < n ==> #[trigger] v@[j] == input[j],
            decreases n - i,
        {
            let a: u32 = v.get(i);
            let b: u32 = v.get(i + 1);
            proof {
                lemma_prefix_total_monotonic(input, 0, i + 1);
                lemma_wrap_step(prefix_total(input, i + 1), b);
                assert(prefix_total(input, i + 2) == prefix_total(input, i + 1) + input[i + 1]);
                assert(a.wrapping_add(b) == b.wrapping_add(a));
            }
            v.set(i + 1, b.wrapping_add(a));
            i = i + 1;
        }
        // Shift by one place towards the end.
        let mut k: usize = n - 1;
        while k >= 1
            invariant
                n == input.len(),
                n >= 1,
                k <= n - 1,
                v@.len() == n,
                forall|j: int| 0 <= j <= k ==> #[trigger] v@[j] == wrap_u32(prefix_total(input, j + 1)),
                forall|j: int| k < j < n ==> #[trigger] v@[j] == wrap_u32(prefix_total(input, j)),
            decreases k,
        {
            let a: u32 = v.get(k - 1);
            v.set(k, a);
            k = k - 1;
        }
        v.set(0, 0);
        proof {
            assert(prefix_total(input, 0) == 0);
            assert(v@ =~= exclusive_scan(input));
        }
    }
}

} // verus!
