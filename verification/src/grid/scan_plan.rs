//! What the queued kernels of a prefix sum compute.
//!
//! The two kernels of the scan are given their meaning on host values: one
//! scans the groups of a buffer and writes their totals to the next level,
//! the other adds the scanned totals of the next level back. Run in the
//! order in which they are queued, on any workspace that was made to fit
//! the data, they leave the exclusive scan of the data in place. Buffers
//! that were kept from a longer scan do no harm: what they hold behind the
//! part in use enters no value that is read.

use crate::arith::div_ceil_spec;
use crate::grid::cascade::{add_totals, group_scan, group_totals, lemma_combine, lemma_single_group};
use crate::grid::prefix_sum::{
    add_data, add_stage, down_sweep, exclusive_scan, lemma_stage_chain_monotonic, prefix_total,
    reserved, scan_data, scan_invocations, scan_stage, stage_chain, up_sweep, wrap_u32,
    PrefixSumWorkspace,
};
use crate::queue::{Buffer, InvocationView, Pipeline, Workgroups};
use vstd::prelude::*;

verus! {

/// The values that the buffers of a scan hold.
pub struct ScanBuffers {
    pub data: Seq<u32>,
    /// The auxiliary buffers, first level first.
    pub stages: Seq<Seq<u32>>,
}

/// The values of the buffer `which`, where `data` names the data buffer.
pub open spec fn buffer_values(b: ScanBuffers, data: Buffer, which: Buffer) -> Seq<u32> {
    if which == data {
        b.data
    } else {
        match which {
            Buffer::PrefixSumStage(i) => b.stages[i as int],
            _ => Seq::<u32>::empty(),
        }
    }
}

/// The buffers with `values` in the buffer `which`.
pub open spec fn with_buffer_values(b: ScanBuffers, data: Buffer, which: Buffer, values: Seq<u32>)
    -> ScanBuffers {
    if which == data {
        ScanBuffers { data: values, stages: b.stages }
    } else {
        match which {
            Buffer::PrefixSumStage(i) => ScanBuffers {
                data: b.data,
                stages: b.stages.update(i as int, values),
            },
            _ => b,
        }
    }
}

/// The smaller of `x` and `n`.
pub open spec fn clip(x: int, n: int) -> int {
    if x <= n {
        x
    } else {
        n
    }
}

/// The totals that `w` work groups write for the values `s`, modulo
/// `2^32`: work group `g` adds up the values of group `g`; a work group
/// behind the last value adds up nothing and writes zero.
pub open spec fn launched_totals(s: Seq<u32>, w: int) -> Seq<u32> {
    Seq::new(
        w as nat,
        |g: int|
            wrap_u32(
                prefix_total(s, clip((g + 1) * 256, s.len() as int)) - prefix_total(
                    s,
                    clip(g * 256, s.len() as int),
                ),
            ),
    )
}

/// What one queued kernel of the scan does to the buffers. The kernel binds
/// a buffer and its next level. It has its effect if it is launched with
/// one work group for each entry of the next level, and these are at least
/// as many as the buffer has groups.
pub open spec fn apply(x: InvocationView, data: Buffer, b: ScanBuffers) -> ScanBuffers {
    match x {
        InvocationView::Kernel(k) => {
            let buf = k.bind_groups[0].entries[0].buffer;
            let aux = k.bind_groups[0].entries[1].buffer;
            let values = buffer_values(b, data, buf);
            let totals = buffer_values(b, data, aux);
            if k.workgroups == Workgroups::Direct(totals.len() as u32) && totals.len()
                >= div_ceil_spec(values.len() as int, 256) && buf != aux {
                if k.pipeline == Pipeline::PrefixSum {
                    with_buffer_values(
                        with_buffer_values(b, data, buf, group_scan(values)),
                        data,
                        aux,
                        launched_totals(values, totals.len() as int),
                    )
                } else if k.pipeline == Pipeline::AddDataGrp {
                    with_buffer_values(b, data, buf, add_totals(values, totals))
                } else {
                    b
                }
            } else {
                b
            }
        },
        InvocationView::ComputePass { .. } => b,
    }
}

/// What the queued kernels do to the buffers, one after the other.
pub open spec fn run(plan: Seq<InvocationView>, data: Buffer, b: ScanBuffers) -> ScanBuffers
    decreases plan.len(),
{
    if plan.len() == 0 {
        b
    } else {
        apply(plan.last(), data, run(plan.drop_last(), data, b))
    }
}

/// Running one more kernel.
pub proof fn lemma_run_push(a: Seq<InvocationView>, x: InvocationView, data: Buffer, b: ScanBuffers)
    ensures
        run(a.push(x), data, b) == apply(x, data, run(a, data, b)),
{
    assert(a.push(x).drop_last() =~= a);
}

/// The values that level `k` holds after the group scans have passed it:
/// the data at level zero, and at every further level the totals that the
/// work groups wrote from the level below. Level `k` has `stages[k - 1]`
/// entries.
pub open spec fn held(s: Seq<u32>, stages: Seq<u32>, k: nat) -> Seq<u32>
    decreases k,
{
    if k == 0 {
        s
    } else {
        launched_totals(held(s, stages, (k - 1) as nat), stages[k - 1] as int)
    }
}

/// A workspace has no more levels than its first level has entries.
pub proof fn lemma_chain_is_short(len: int)
    ensures
        stage_chain(len).len() <= if len <= 1 {
            1
        } else {
            len
        },
    decreases len,
{
    if len > 1 {
        lemma_chain_is_short(div_ceil_spec(len, 256));
    }
}

/// The levels of a workspace: the first level has the length that the
/// workspace was laid out for, every further level has one entry for each
/// group of the level below, and the last level has one entry.
pub proof fn lemma_chain_links(len: int)
    requires
        len <= u32::MAX,
    ensures
        ({
            let chain = stage_chain(len);
            &&& 1 <= chain.len() <= u32::MAX
            &&& chain[0] == if len <= 1 {
                1
            } else {
                len
            }
            &&& chain[chain.len() - 1] == 1
            &&& forall|k: int|
                0 <= k < chain.len() - 1 ==> (#[trigger] chain[k]) >= 2 && chain[k + 1]
                    == div_ceil_spec(chain[k] as int, 256)
        }),
    decreases len,
{
    let chain = stage_chain(len);
    lemma_chain_is_short(len);
    if len > 1 {
        let next = div_ceil_spec(len, 256);
        let rest = stage_chain(next);
        lemma_chain_links(next);
        assert(chain =~= seq![len as u32] + rest);
        assert forall|k: int| 0 <= k < chain.len() - 1 implies (#[trigger] chain[k]) >= 2
            && chain[k + 1] == div_ceil_spec(chain[k] as int, 256) by {
            if k >= 1 {
                assert(chain[k] == rest[k - 1]);
                assert(chain[k + 1] == rest[k]);
            } else {
                assert(chain[1] == rest[0]);
            }
        }
    }
}

/// A workspace laid out for fewer entries has no more levels, and no level
/// of it is longer.
pub proof fn lemma_chain_below(a: int, b: int)
    requires
        a <= b <= u32::MAX,
    ensures
        stage_chain(a).len() <= stage_chain(b).len(),
        forall|k: int|
            0 <= k < stage_chain(a).len() ==> (#[trigger] stage_chain(a)[k]) <= stage_chain(b)[k],
    decreases b,
{
    lemma_stage_chain_monotonic(a, b);
    lemma_chain_links(a);
    lemma_chain_links(b);
    if a > 1 {
        let na = div_ceil_spec(a, 256);
        let nb = div_ceil_spec(b, 256);
        lemma_chain_below(na, nb);
        assert(stage_chain(a) =~= seq![a as u32] + stage_chain(na));
        assert(stage_chain(b) =~= seq![b as u32] + stage_chain(nb));
        assert forall|k: int| 0 <= k < stage_chain(a).len() implies (#[trigger] stage_chain(
            a,
        )[k]) <= stage_chain(b)[k] by {
            if k >= 1 {
                assert(stage_chain(a)[k] == stage_chain(na)[k - 1]);
                assert(stage_chain(b)[k] == stage_chain(nb)[k - 1]);
            }
        }
    }
}

/// Sums over equal front parts are equal.
pub proof fn lemma_prefix_total_agrees(a: Seq<u32>, b: Seq<u32>, n: int)
    requires
        0 <= n <= a.len(),
        n <= b.len(),
        forall|i: int| 0 <= i < n ==> a[i] == b[i],
    ensures
        prefix_total(a, n) == prefix_total(b, n),
    decreases n,
{
    if n > 0 {
        lemma_prefix_total_agrees(a, b, n - 1);
    }
}

/// A value of a group scan, with the scanned total of the groups before it
/// added, is the value of the scan. It is enough that the entry of `aux`
/// for the group is the scanned entry of the totals that the work groups
/// wrote.
pub proof fn lemma_combine_at(x: Seq<u32>, w: int, aux: Seq<u32>, i: int)
    requires
        0 <= i < x.len(),
        w >= div_ceil_spec(x.len() as int, 256),
        aux[i / 256] == exclusive_scan(launched_totals(x, w))[i / 256],
    ensures
        add_totals(group_scan(x), aux)[i] == exclusive_scan(x)[i],
{
    let t = group_totals(x);
    let l = launched_totals(x, w);
    let g = i / 256;
    assert forall|h: int| 0 <= h < g implies l[h] == t[h] by {}
    lemma_prefix_total_agrees(l, t, g);
    lemma_combine(x);
    assert(add_totals(group_scan(x), exclusive_scan(t))[i] == exclusive_scan(x)[i]);
}

/// The buffers before the scan of the data `s`: the auxiliary buffers have
/// the lengths `stages`.
pub open spec fn laid_out(s: Seq<u32>, stages: Seq<u32>, b: ScanBuffers) -> bool {
    &&& b.data == s
    &&& b.stages.len() == stages.len()
    &&& forall|i: int| 0 <= i < stages.len() ==> (#[trigger] b.stages[i]).len() == stages[i]
}

/// The workspace with buffers of the lengths `stages` fits a scan of `n`
/// values: its levels form a chain down to one entry, and the first level
/// has an entry for every group of the values.
pub open spec fn fits(stages: Seq<u32>, n: int) -> bool {
    &&& stages.len() >= 1
    &&& stages[0] >= 1
    &&& stages == stage_chain(stages[0] as int)
    &&& stages[0] >= div_ceil_spec(n, 256)
}

/// The buffers after the group scans of the data and of the first `j`
/// levels: every scanned level holds its group scan, and the level above
/// them holds the totals written to it.
pub open spec fn swept_up(s: Seq<u32>, stages: Seq<u32>, j: int, b: ScanBuffers) -> bool {
    &&& b.data == group_scan(s)
    &&& b.stages.len() == stages.len()
    &&& forall|i: int|
        0 <= i < j ==> #[trigger] b.stages[i] == group_scan(held(s, stages, (i + 1) as nat))
    &&& b.stages[j] == held(s, stages, (j + 1) as nat)
    &&& forall|i: int| j < i < stages.len() ==> (#[trigger] b.stages[i]).len() == stages[i]
}

/// The buffers after the first `k` additions, for `m` levels in use of
/// which level `i` uses `used[i]` entries: the levels from the last but one
/// down to the last one added to hold their scans in the entries in use,
/// the levels below hold their group scans.
pub open spec fn swept_down(
    s: Seq<u32>,
    stages: Seq<u32>,
    used: Seq<u32>,
    k: int,
    b: ScanBuffers,
) -> bool {
    let m = used.len() as int;
    &&& b.data == group_scan(s)
    &&& b.stages.len() == stages.len()
    &&& forall|i: int|
        0 <= i < m - 2 - k ==> #[trigger] b.stages[i] == group_scan(
            held(s, stages, (i + 1) as nat),
        )
    &&& forall|i: int|
        0 <= i && m - 2 - k <= i <= m - 2 ==> (#[trigger] b.stages[i]).len() == stages[i]
            && forall|x: int|
            0 <= x < used[i] ==> b.stages[i][x] == #[trigger] exclusive_scan(
                held(s, stages, (i + 1) as nat),
            )[x]
}

/// What holds of the lengths of a workspace that fits `n` values and of
/// the entries that a scan of `n` values uses.
proof fn lemma_fit(s: Seq<u32>, stages: Seq<u32>)
    requires
        s.len() <= u32::MAX,
        fits(stages, s.len() as int),
    ensures
        ({
            let used = stage_chain(div_ceil_spec(s.len() as int, 256));
            &&& 1 <= used.len() <= stages.len() <= u32::MAX
            &&& used[used.len() - 1] == 1
            &&& used[0] >= div_ceil_spec(s.len() as int, 256)
            &&& forall|k: int| 0 <= k < used.len() ==> 1 <= (#[trigger] used[k]) <= stages[k]
            &&& forall|k: int|
                0 <= k < used.len() - 1 ==> (#[trigger] used[k + 1]) == div_ceil_spec(
                    used[k] as int,
                    256,
                )
            &&& forall|k: int|
                0 <= k < stages.len() - 1 ==> (#[trigger] stages[k + 1]) == div_ceil_spec(
                    stages[k] as int,
                    256,
                )
            &&& forall|k: int|
                1 <= k <= stages.len() ==> (#[trigger] held(s, stages, k as nat)).len()
                    == stages[k - 1]
        }),
{
    let first = div_ceil_spec(s.len() as int, 256);
    let used = stage_chain(first);
    lemma_chain_links(first);
    lemma_chain_links(stages[0] as int);
    lemma_chain_below(first, stages[0] as int);
    assert forall|k: int| 0 <= k < used.len() implies 1 <= (#[trigger] used[k]) <= stages[k] by {
        if k < used.len() - 1 {
            assert(used[k] >= 2);
        }
    }
    assert forall|k: int| 0 <= k < used.len() - 1 implies (#[trigger] used[k + 1])
        == div_ceil_spec(used[k] as int, 256) by {
        assert(used[k] >= 2);
    }
    assert forall|k: int| 0 <= k < stages.len() - 1 implies (#[trigger] stages[k + 1])
        == div_ceil_spec(stages[k] as int, 256) by {
        assert(stages[k] >= 2);
    }
}

/// The group scans, run in the order in which they are queued, leave in
/// every level that they pass its group scan.
proof fn lemma_up_sweep(s: Seq<u32>, stages: Seq<u32>, data: Buffer, b: ScanBuffers, j: int)
    requires
        s.len() <= u32::MAX,
        !(data is PrefixSumStage),
        fits(stages, s.len() as int),
        laid_out(s, stages, b),
        0 <= j <= stage_chain(div_ceil_spec(s.len() as int, 256)).len() - 1,
    ensures
        ({
            let m = stage_chain(div_ceil_spec(s.len() as int, 256)).len() as int;
            swept_up(
                s,
                stages,
                j,
                run(seq![scan_data(data, stages)] + up_sweep(stages, m).take(j), data, b),
            )
        }),
    decreases j,
{
    let m = stage_chain(div_ceil_spec(s.len() as int, 256)).len() as int;
    let first = seq![scan_data(data, stages)];
    let up = up_sweep(stages, m);
    lemma_fit(s, stages);
    assert(held(s, stages, 0) == s);
    assert(held(s, stages, 1) == launched_totals(s, stages[0] as int));
    if j == 0 {
        assert(first + up.take(0) =~= first);
        lemma_run_push(Seq::<InvocationView>::empty(), scan_data(data, stages), data, b);
        assert(Seq::<InvocationView>::empty().push(scan_data(data, stages)) =~= first);
        assert(run(Seq::<InvocationView>::empty(), data, b) == b);
        let after = run(first, data, b);
        assert(b.stages[0].len() == stages[0]);
        assert(after.data == group_scan(s));
        assert(after.stages =~= b.stages.update(0, launched_totals(s, stages[0] as int)));
    } else {
        lemma_up_sweep(s, stages, data, b, j - 1);
        let before = run(first + up.take(j - 1), data, b);
        assert(first + up.take(j) =~= (first + up.take(j - 1)).push(scan_stage(stages, j - 1)));
        lemma_run_push(first + up.take(j - 1), scan_stage(stages, j - 1), data, b);
        let after = run(first + up.take(j), data, b);
        let values = held(s, stages, j as nat);
        assert(before.stages[j - 1] == values);
        assert(held(s, stages, (j + 1) as nat) == launched_totals(values, stages[j] as int));
        assert(values.len() == stages[j - 1]);
        assert(stages[j] == div_ceil_spec(stages[j - 1] as int, 256));
        assert(before.stages[j].len() == stages[j]);
        assert(after.stages =~= before.stages.update(j - 1, group_scan(values)).update(
            j,
            launched_totals(values, stages[j] as int),
        ));
        assert(after.data == before.data);
    }
}

/// The additions, run in the order in which they are queued, leave in
/// every level but the last its scan, in the entries in use.
proof fn lemma_down_sweep(s: Seq<u32>, stages: Seq<u32>, data: Buffer, b: ScanBuffers, k: int)
    requires
        s.len() <= u32::MAX,
        !(data is PrefixSumStage),
        fits(stages, s.len() as int),
        laid_out(s, stages, b),
        stage_chain(div_ceil_spec(s.len() as int, 256)).len() >= 2,
        0 <= k <= stage_chain(div_ceil_spec(s.len() as int, 256)).len() - 2,
    ensures
        ({
            let used = stage_chain(div_ceil_spec(s.len() as int, 256));
            let m = used.len() as int;
            swept_down(
                s,
                stages,
                used,
                k,
                run(
                    seq![scan_data(data, stages)] + up_sweep(stages, m) + down_sweep(
                        stages,
                        m,
                    ).take(k),
                    data,
                    b,
                ),
            )
        }),
    decreases k,
{
    let used = stage_chain(div_ceil_spec(s.len() as int, 256));
    let m = used.len() as int;
    let first = seq![scan_data(data, stages)];
    let up = up_sweep(stages, m);
    let down = down_sweep(stages, m);
    lemma_fit(s, stages);
    if k == 0 {
        lemma_up_sweep(s, stages, data, b, m - 1);
        assert(up.take(m - 1) =~= up);
        assert(first + up + down.take(0) =~= first + up);
        let after = run(first + up, data, b);
        // The entries in use of the level below the last one fit in one
        // group.
        let top = held(s, stages, (m - 1) as nat);
        assert(used[m - 1] == div_ceil_spec(used[m - 2] as int, 256));
        assert(used[m - 2] <= 256);
        assert(after.stages[m - 2] == group_scan(top));
        assert(top.len() == stages[m - 2]);
        assert(prefix_total(top, 0) == 0);
        assert forall|x: int| 0 <= x < used[m - 2] implies after.stages[m - 2][x]
            == #[trigger] exclusive_scan(top)[x] by {
            assert(x / 256 == 0);
        }
    } else {
        lemma_down_sweep(s, stages, data, b, k - 1);
        let i = m - 2 - k;
        let before = run(first + up + down.take(k - 1), data, b);
        assert(down[k - 1] == add_stage(stages, i));
        assert(first + up + down.take(k) =~= (first + up + down.take(k - 1)).push(
            add_stage(stages, i),
        ));
        lemma_run_push(first + up + down.take(k - 1), add_stage(stages, i), data, b);
        let after = run(first + up + down.take(k), data, b);
        let values = held(s, stages, (i + 1) as nat);
        let above = held(s, stages, (i + 2) as nat);
        assert(above == launched_totals(values, stages[i + 1] as int));
        assert(before.stages[i] == group_scan(values));
        assert(before.stages[i + 1].len() == stages[i + 1]);
        assert(values.len() == stages[i]);
        assert(stages[i + 1] == div_ceil_spec(stages[i] as int, 256));
        assert(after.stages =~= before.stages.update(
            i,
            add_totals(group_scan(values), before.stages[i + 1]),
        ));
        assert(after.data == before.data);
        assert(used[i + 1] == div_ceil_spec(used[i] as int, 256));
        assert forall|x: int| 0 <= x < used[i] implies after.stages[i][x]
            == #[trigger] exclusive_scan(values)[x] by {
            assert(x / 256 < used[i + 1]);
            assert(before.stages[i + 1][x / 256] == exclusive_scan(above)[x / 256]);
            lemma_combine_at(values, stages[i + 1] as int, before.stages[i + 1], x);
        }
        assert forall|h: int| 0 <= h && m - 2 - k <= h <= m - 2 implies (
        #[trigger] after.stages[h]).len() == stages[h] && forall|x: int|
            0 <= x < used[h] ==> after.stages[h][x] == #[trigger] exclusive_scan(
                held(s, stages, (h + 1) as nat),
            )[x] by {
            if h != i {
                assert(after.stages[h] == before.stages[h]);
            }
        }
    }
}

/// The kernels of a scan, run in the order in which they are queued on a
/// workspace that fits the data, leave the exclusive scan of the data in
/// the data buffer. The levels in use are those that the data need; the
/// buffers may be longer than that.
pub proof fn lemma_queued_scan_is_exclusive_scan(
    s: Seq<u32>,
    stages: Seq<u32>,
    data: Buffer,
    b: ScanBuffers,
)
    requires
        s.len() <= u32::MAX,
        !(data is PrefixSumStage),
        fits(stages, s.len() as int),
        laid_out(s, stages, b),
    ensures
        run(
            scan_invocations(
                data,
                stages,
                stage_chain(div_ceil_spec(s.len() as int, 256)).len() as int,
            ),
            data,
            b,
        ).data == exclusive_scan(s),
{
    let used = stage_chain(div_ceil_spec(s.len() as int, 256));
    let m = used.len() as int;
    let first = seq![scan_data(data, stages)];
    let up = up_sweep(stages, m);
    let down = down_sweep(stages, m);
    lemma_fit(s, stages);
    assert(held(s, stages, 0) == s);
    assert(held(s, stages, 1) == launched_totals(s, stages[0] as int));
    if m == 1 {
        lemma_up_sweep(s, stages, data, b, 0);
        assert(up.take(0) =~= up);
        assert(scan_invocations(data, stages, m) =~= first + up.take(0));
        assert(s.len() <= 256);
        lemma_single_group(s);
    } else {
        lemma_down_sweep(s, stages, data, b, m - 2);
        assert(down.take(m - 2) =~= down);
        let before = run(first + up + down, data, b);
        assert(scan_invocations(data, stages, m) =~= (first + up + down).push(
            add_data(data, stages),
        ));
        lemma_run_push(first + up + down, add_data(data, stages), data, b);
        let after = run(scan_invocations(data, stages, m), data, b);
        assert(before.stages[0].len() == stages[0]);
        assert(after.data == add_totals(group_scan(s), before.stages[0]));
        assert forall|x: int| 0 <= x < s.len() implies after.data[x] == exclusive_scan(s)[x] by {
            assert(x / 256 < used[0]);
            assert(before.stages[0][x / 256] == exclusive_scan(held(s, stages, 1))[x / 256]);
            lemma_combine_at(s, stages[0] as int, before.stages[0], x);
        }
        assert(after.data =~= exclusive_scan(s));
    }
}

/// A workspace that was made to fit a scan fits it, whatever it was used
/// for before, and has the levels in use that the scan needs.
pub proof fn lemma_reserved_fits(
    before: PrefixSumWorkspace,
    buffer_len: u32,
    after: PrefixSumWorkspace,
)
    requires
        before.wf(),
        reserved(before, buffer_len, after),
    ensures
        fits(after.capacities(), buffer_len as int),
        after.num_stages == stage_chain(div_ceil_spec(buffer_len as int, 256)).len(),
{
    let first = div_ceil_spec(buffer_len as int, 256);
    let stages = after.capacities();
    lemma_chain_links(first);
    assert(stages.len() == after.stages@.len());
    if before.stages@.len() == 0 || before.stages@[0].capacity < first {
        assert(stages[0] == stage_chain(first)[0]);
        if first <= 1 {
            assert(stage_chain(first) =~= stage_chain(1));
        }
    } else {
        assert(before.capacities() =~= stages);
        assert(stages[0] == before.stages@[0].capacity);
    }
}

/// Whatever a workspace was used for before: what is queued for a scan
/// computes the scan. After the workspace is made to fit the data, the
/// queued kernels, run on buffers of the lengths of the workspace, leave
/// the exclusive scan of the data in the data buffer, which starts with
/// zero.
pub proof fn lemma_scan_on_any_workspace(
    before: PrefixSumWorkspace,
    after: PrefixSumWorkspace,
    s: Seq<u32>,
    data: Buffer,
    b: ScanBuffers,
)
    requires
        s.len() <= u32::MAX,
        !(data is PrefixSumStage),
        before.wf(),
        reserved(before, s.len() as u32, after),
        laid_out(s, after.capacities(), b),
    ensures
        run(scan_invocations(data, after.capacities(), after.num_stages as int), data, b).data
            == exclusive_scan(s),
        s.len() >= 1 ==> run(
            scan_invocations(data, after.capacities(), after.num_stages as int),
            data,
            b,
        ).data[0] == 0,
{
    lemma_reserved_fits(before, s.len() as u32, after);
    lemma_queued_scan_is_exclusive_scan(s, after.capacities(), data, b);
}

} // verus!
