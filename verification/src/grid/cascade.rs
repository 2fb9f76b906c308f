//! The prefix sum as a cascade of group scans.
//!
//! The values are cut into groups of 256. Every group is scanned on its
//! own and yields its total. The totals are scanned in the same way, level
//! after level, until one group holds them all. On the way back, the
//! scanned totals of a level are added to the groups of the level below.
//! The result is the exclusive scan of the values.

use crate::arith::div_ceil_spec;
use crate::grid::prefix_sum::{
    exclusive_scan, lemma_prefix_total_monotonic, lemma_wrap_step, prefix_total, wrap_u32,
};
use vstd::arithmetic::div_mod::lemma_add_mod_noop_right;
use vstd::prelude::*;

verus! {

/// Number of values in a group.
pub const GROUP_SIZE: usize = 256;

/// The place at which the group of the value `i` starts.
pub open spec fn group_start(i: int) -> int {
    (i / 256) * 256
}

/// The place behind the last value of the group `g`, among `n` values.
pub open spec fn group_end(g: int, n: int) -> int {
    if (g + 1) * 256 <= n {
        (g + 1) * 256
    } else {
        n
    }
}

/// Every group scanned on its own: entry `i` is the sum, modulo `2^32`, of
/// the values of its group that stand before it.
pub open spec fn group_scan(s: Seq<u32>) -> Seq<u32> {
    Seq::new(s.len(), |i: int| wrap_u32(prefix_total(s, i) - prefix_total(s, group_start(i))))
}

/// The totals of the groups, modulo `2^32`.
pub open spec fn group_totals(s: Seq<u32>) -> Seq<u32> {
    Seq::new(
        div_ceil_spec(s.len() as int, 256) as nat,
        |g: int| wrap_u32(prefix_total(s, group_end(g, s.len() as int)) - prefix_total(s, g * 256)),
    )
}

/// To every value, the entry of `t` for its group is added, modulo `2^32`.
pub open spec fn add_totals(s: Seq<u32>, t: Seq<u32>) -> Seq<u32> {
    Seq::new(s.len(), |i: int| s[i].wrapping_add(t[i / 256]))
}

/// Residues add up to the residue of the sum.
proof fn lemma_wrap_add(a: int, b: int)
    requires
        a >= 0,
        b >= 0,
    ensures
        wrap_u32(a).wrapping_add(wrap_u32(b)) == wrap_u32(a + b),
{
    lemma_wrap_step(a, wrap_u32(b));
    lemma_add_mod_noop_right(a, b, 0x1_0000_0000);
}

/// The totals of the first `g` groups add up, modulo `2^32`, to the sum
/// of the values of these groups.
pub proof fn lemma_totals_sum(s: Seq<u32>, g: int)
    requires
        0 <= g <= group_totals(s).len(),
    ensures
        g * 256 <= s.len() ==> wrap_u32(prefix_total(group_totals(s), g)) == wrap_u32(
            prefix_total(s, g * 256),
        ),
        g * 256 > s.len() ==> wrap_u32(prefix_total(group_totals(s), g)) == wrap_u32(
            prefix_total(s, s.len() as int),
        ),
    decreases g,
{
    let t = group_totals(s);
    let n = s.len() as int;
    if g > 0 {
        lemma_totals_sum(s, g - 1);
        let before = (g - 1) * 256;
        assert(before < n);
        let end = group_end(g - 1, n);
        lemma_prefix_total_monotonic(t, 0, g - 1);
        lemma_prefix_total_monotonic(s, 0, before);
        lemma_prefix_total_monotonic(s, before, end);
        lemma_wrap_step(prefix_total(t, g - 1), t[g - 1]);
        lemma_wrap_add(prefix_total(s, before), prefix_total(s, end) - prefix_total(s, before));
        assert(prefix_total(t, g) == prefix_total(t, g - 1) + t[g - 1]);
    }
}

/// The scan of a group, with the scanned total of the groups before it
/// added, is the scan of all values.
pub proof fn lemma_combine(s: Seq<u32>)
    ensures
        add_totals(group_scan(s), exclusive_scan(group_totals(s))) == exclusive_scan(s),
{
    let t = group_totals(s);
    let combined = add_totals(group_scan(s), exclusive_scan(t));
    assert forall|i: int| 0 <= i < s.len() implies combined[i] == exclusive_scan(s)[i] by {
        let g = i / 256;
        lemma_totals_sum(s, g);
        lemma_prefix_total_monotonic(s, 0, g * 256);
        lemma_prefix_total_monotonic(s, g * 256, i);
        lemma_wrap_add(prefix_total(s, i) - prefix_total(s, g * 256), prefix_total(s, g * 256));
        assert(wrap_u32(prefix_total(s, g * 256)).wrapping_add(
            wrap_u32(prefix_total(s, i) - prefix_total(s, g * 256)),
        ) == wrap_u32(prefix_total(s, i) - prefix_total(s, g * 256)).wrapping_add(
            wrap_u32(prefix_total(s, g * 256)),
        ));
    }
    assert(combined =~= exclusive_scan(s));
}

/// Values that fit in one group are scanned by the scan of their group.
pub proof fn lemma_single_group(s: Seq<u32>)
    requires
        s.len() <= 256,
    ensures
        group_scan(s) == exclusive_scan(s),
{
    assert(prefix_total(s, 0) == 0);
    assert(group_scan(s) =~= exclusive_scan(s));
}

/// Scans every group of `data` on its own and writes the totals of the
/// groups to `aux`.
pub fn scan_groups(data: &mut Vec<u32>, aux: &mut Vec<u32>)
    requires
        old(aux)@.len() == div_ceil_spec(old(data)@.len() as int, 256),
    ensures
        final(data)@ == group_scan(old(data)@),
        final(aux)@ == group_totals(old(data)@),
{
    let n: usize = data.len();
    let ghost s = data@;
    let ghost totals = group_totals(s);
    let mut sum: u32 = 0;
    let mut i: usize = 0;
    proof {
        assert(prefix_total(s, 0) == 0);
    }
    while i < n
        invariant
            i <= n,
            n == s.len(),
            data@.len() == n,
            aux@.len() == totals.len(),
            totals == group_totals(s),
            totals.len() == div_ceil_spec(n as int, 256),
            sum == wrap_u32(
                prefix_total(s, i as int) - prefix_total(
                    s,
                    if i == 0 {
                        0
                    } else {
                        group_start(i - 1)
                    },
                ),
            ),
            forall|j: int| 0 <= j < i ==> #[trigger] data@[j] == group_scan(s)[j],
            forall|j: int| i <= j < n ==> #[trigger] data@[j] == s[j],
            forall|g: int|
                0 <= g && (g + 1) * 256 < i ==> #[trigger] aux@[g] == totals[g],
            i > 0 && i % 256 != 0 ==> forall|g: int|
                0 <= g && (g + 1) * 256 <= i ==> #[trigger] aux@[g] == totals[g],
        decreases n - i,
    {
        if i % GROUP_SIZE == 0 && i > 0 {
            aux.set(i / GROUP_SIZE - 1, sum);
            sum = 0;
        }
        let x: u32 = data[i];
        data.set(i, sum);
        proof {
            lemma_prefix_total_monotonic(s, group_start(i as int), i as int);
            lemma_wrap_step(prefix_total(s, i as int) - prefix_total(s, group_start(i as int)), x);
            assert(prefix_total(s, i + 1) == prefix_total(s, i as int) + s[i as int]);
        }
        sum = sum.wrapping_add(x);
        i = i + 1;
    }
    if n > 0 {
        aux.set((n - 1) / GROUP_SIZE, sum);
    }
    proof {
        assert(data@ =~= group_scan(s));
        assert(aux@ =~= totals);
    }
}

/// Adds to every value of `data` the entry of `aux` for its group.
pub fn add_data_grp(data: &mut Vec<u32>, aux: &Vec<u32>)
    requires
        aux@.len() == div_ceil_spec(old(data)@.len() as int, 256),
    ensures
        final(data)@ == add_totals(old(data)@, aux@),
{
    let n: usize = data.len();
    let ghost s = data@;
    let mut i: usize = 0;
    while i < n
        invariant
            i <= n,
            n == s.len(),
            data@.len() == n,
            aux@.len() == div_ceil_spec(n as int, 256),
            forall|j: int| 0 <= j < i ==> #[trigger] data@[j] == add_totals(s, aux@)[j],
            forall|j: int| i <= j < n ==> #[trigger] data@[j] == s[j],
        decreases n - i,
    {
        let x: u32 = data[i];
        let t: u32 = aux[i / GROUP_SIZE];
        data.set(i, x.wrapping_add(t));
        i = i + 1;
    }
    proof {
        assert(data@ =~= add_totals(s, aux@));
    }
}

/// The exclusive scan of `data`, in place, by group scans over as many
/// levels as the values need.
pub fn scan_cascade(data: &mut Vec<u32>)
    ensures
        final(data)@ == exclusive_scan(old(data)@),
    decreases old(data)@.len(),
{
    let n: usize = data.len();
    if n == 0 {
        assert(data@ =~= exclusive_scan(data@));
        return ;
    }
    assert(n <= usize::MAX);
    let num_groups: usize = (n - 1) / GROUP_SIZE + 1;
    let mut aux: Vec<u32> = Vec::new();
    let mut g: usize = 0;
    while g < num_groups
        invariant
            g <= num_groups,
            aux@.len() == g,
        decreases num_groups - g,
    {
        aux.push(0);
        g = g + 1;
    }
    let ghost s = data@;
    scan_groups(data, &mut aux);
    if aux.len() > 1 {
        scan_cascade(&mut aux);
        add_data_grp(data, &aux);
        proof {
            lemma_combine(s);
        }
    } else {
        proof {
            lemma_single_group(s);
        }
    }
}

} // verus!
