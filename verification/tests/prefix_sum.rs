use wgsparkl::dvector::U32Vector;
use wgsparkl::grid::prefix_sum::{PrefixSumStage, PrefixSumWorkspace, WgPrefixSum};
use wgsparkl::queue::{
    BindGroupEntry, Buffer, Invocation, KernelInvocationQueue, Pipeline, Workgroups,
};

fn reference_scan(input: &[u32]) -> Vec<u32> {
    let mut out = Vec::with_capacity(input.len());
    let mut total: u32 = 0;
    for x in input {
        out.push(total);
        total = total.wrapping_add(*x);
    }
    out
}

fn scan(input: Vec<u32>) -> Vec<u32> {
    let mut v = U32Vector::from_vec(input);
    WgPrefixSum {}.eval_cpu(&mut v);
    v.to_vec()
}

fn capacities(w: &PrefixSumWorkspace) -> Vec<u32> {
    w.stages.iter().map(|s| s.capacity).collect()
}

#[test]
fn eval_cpu_single_element() {
    assert_eq!(scan(vec![7]), vec![0]);
}

#[test]
fn eval_cpu_small_vector() {
    assert_eq!(scan(vec![3, 1, 4, 1, 5]), vec![0, 3, 4, 8, 9]);
}

#[test]
fn eval_cpu_constant_vector() {
    let len = 15071usize;
    let out = scan(vec![1; len]);
    assert_eq!(out.len(), len);
    for (i, x) in out.iter().enumerate() {
        assert_eq!(*x, i as u32);
    }
}

#[test]
fn eval_cpu_ramp_vector() {
    let len = 15071usize;
    let input: Vec<u32> = (0..len as u32).collect();
    let out = scan(input.clone());
    assert_eq!(out, reference_scan(&input));
    assert_eq!(out[0], 0);
    assert_eq!(out[1], 0);
    assert_eq!(out[2], 1);
    assert_eq!(out[15070], 15070 * 15069 / 2);
}

#[test]
fn eval_cpu_pseudo_random_vector() {
    let len = 15071usize;
    let mut state: u32 = 0x2545_f491;
    let mut input = Vec::with_capacity(len);
    for _ in 0..len {
        state ^= state << 13;
        state ^= state >> 17;
        state ^= state << 5;
        input.push(state % 10_000);
    }
    assert_eq!(scan(input.clone()), reference_scan(&input));
}

#[test]
fn eval_cpu_wraps_modulo_two_to_the_32() {
    assert_eq!(scan(vec![u32::MAX, 2, 5]), vec![0, u32::MAX, 1]);
}

#[test]
fn vector_round_trip_and_access() {
    let mut v = U32Vector::from_vec(vec![10, 20, 30]);
    assert_eq!(v.len(), 3);
    assert_eq!(v.get(0), 10);
    assert_eq!(v.get(2), 30);
    v.set(1, 99);
    assert_eq!(v.get(1), 99);
    assert_eq!(v.to_vec(), vec![10, 99, 30]);
    assert_eq!(U32Vector::from_vec(vec![]).len(), 0);
}

#[test]
fn workspace_starts_empty() {
    let w = PrefixSumWorkspace::new();
    assert!(w.stages.is_empty());
    assert_eq!(w.num_stages, 0);
}

#[test]
fn workspace_levels_for_15071_values() {
    let w = PrefixSumWorkspace::with_capacity(15071);
    assert_eq!(capacities(&w), vec![59, 1]);
    assert_eq!(w.num_stages, 2);
}

#[test]
fn workspace_levels_for_small_and_large_buffers() {
    assert_eq!(capacities(&PrefixSumWorkspace::with_capacity(1)), vec![1]);
    assert_eq!(capacities(&PrefixSumWorkspace::with_capacity(256)), vec![1]);
    assert_eq!(capacities(&PrefixSumWorkspace::with_capacity(257)), vec![2, 1]);
    assert_eq!(capacities(&PrefixSumWorkspace::with_capacity(100_000)), vec![391, 2, 1]);
    assert_eq!(capacities(&PrefixSumWorkspace::with_capacity(u32::MAX)), vec![16777216, 65536, 256, 1]);
}

#[test]
fn reserve_lays_out_anew_when_first_level_is_too_short() {
    let mut w = PrefixSumWorkspace::with_capacity(257);
    w.reserve(100_000);
    assert_eq!(capacities(&w), vec![391, 2, 1]);
    assert_eq!(w.num_stages, 3);
}

#[test]
fn reserve_keeps_buffers_that_are_long_enough() {
    let mut w = PrefixSumWorkspace::with_capacity(100_000);
    w.reserve(300);
    assert_eq!(capacities(&w), vec![391, 2, 1]);
    assert_eq!(w.num_stages, 2);
    w.reserve(200);
    assert_eq!(capacities(&w), vec![391, 2, 1]);
    assert_eq!(w.num_stages, 1);
}

#[test]
fn reserve_counts_the_levels_from_the_length_alone() {
    let mut w = PrefixSumWorkspace::new();
    w.reserve(1000);
    assert_eq!(capacities(&w), vec![4, 1]);
    assert_eq!(w.num_stages, 2);
    w.reserve(100);
    assert_eq!(capacities(&w), vec![4, 1]);
    assert_eq!(w.num_stages, 1);
    w.reserve(1000);
    assert_eq!(capacities(&w), vec![4, 1]);
    assert_eq!(w.num_stages, 2);
}

#[test]
fn reserve_for_no_value_takes_one_level() {
    let mut w = PrefixSumWorkspace::new();
    w.reserve(0);
    assert_eq!(capacities(&w), vec![1]);
    assert_eq!(w.num_stages, 1);
    assert_eq!(capacities(&PrefixSumWorkspace::with_capacity(0)), vec![1]);
    let mut kept = PrefixSumWorkspace::with_capacity(100_000);
    kept.reserve(0);
    assert_eq!(capacities(&kept), vec![391, 2, 1]);
    assert_eq!(kept.num_stages, 1);
}

/// Runs queued scan kernels on host buffers: a group scan writes one total
/// for each work group, zero where the group holds no value.
fn run_scan(queue: &KernelInvocationQueue, data: &mut Vec<u32>, stages: &mut Vec<Vec<u32>>) {
    for inv in &queue.invocations {
        let (pipeline, groups, workgroups) = kernel(inv);
        let n_groups = match workgroups {
            Workgroups::Direct(n) => n as usize,
            Workgroups::Indirect(_) => panic!("a direct dispatch was expected"),
        };
        let (buf, aux) = (groups[0][0].buffer, groups[0][1].buffer);
        let values = match buf {
            Buffer::PrefixSumStage(i) => stages[i].clone(),
            _ => data.clone(),
        };
        let level = match aux {
            Buffer::PrefixSumStage(i) => i,
            _ => panic!("a level was expected"),
        };
        assert_eq!(stages[level].len(), n_groups);
        assert!(n_groups * 256 >= values.len());
        let mut out = values.clone();
        match pipeline {
            Pipeline::PrefixSum => {
                for g in 0..n_groups {
                    let mut sum = 0u32;
                    for i in (g * 256).min(values.len())..((g + 1) * 256).min(values.len()) {
                        out[i] = sum;
                        sum = sum.wrapping_add(values[i]);
                    }
                    stages[level][g] = sum;
                }
            }
            Pipeline::AddDataGrp => {
                for i in 0..values.len() {
                    out[i] = values[i].wrapping_add(stages[level][i / 256]);
                }
            }
            _ => panic!("a scan kernel was expected"),
        }
        match buf {
            Buffer::PrefixSumStage(i) => stages[i] = out,
            _ => *data = out,
        }
    }
}

fn queued_scan(w: &mut PrefixSumWorkspace, stages: &mut Vec<Vec<u32>>, input: Vec<u32>) -> Vec<u32> {
    let mut queue = KernelInvocationQueue::new();
    WgPrefixSum {}.queue(&mut queue, w, Buffer::GridScanValues, input.len() as u32);
    // Buffers that stay keep what the scans before left in them.
    if stages.len() != w.stages.len()
        || stages.iter().zip(w.stages.iter()).any(|(b, s)| b.len() != s.capacity as usize)
    {
        *stages = w.stages.iter().map(|s| vec![0xdead_beef; s.capacity as usize]).collect();
    }
    let mut data = input;
    run_scan(&queue, &mut data, stages);
    data
}

#[test]
fn queued_scan_on_a_reused_workspace() {
    let mut w = PrefixSumWorkspace::new();
    let mut stages = Vec::new();
    let first: Vec<u32> = (0..1000).collect();
    assert_eq!(queued_scan(&mut w, &mut stages, first.clone()), reference_scan(&first));
    let second = vec![7; 100];
    assert_eq!(queued_scan(&mut w, &mut stages, second.clone()), reference_scan(&second));
    let third = queued_scan(&mut w, &mut stages, vec![1; 1000]);
    for (i, x) in third.iter().enumerate() {
        assert_eq!(*x, i as u32);
    }
    assert_eq!(third[256], 256);
    assert_eq!(third[999], 999);
}

#[test]
fn queued_scan_on_kept_longer_buffers() {
    let mut w = PrefixSumWorkspace::new();
    let mut stages = Vec::new();
    let large: Vec<u32> = (0..100_000).map(|i| i % 97).collect();
    assert_eq!(queued_scan(&mut w, &mut stages, large.clone()), reference_scan(&large));
    for len in [70_000usize, 15071, 600, 257, 256, 1, 0] {
        let input: Vec<u32> = (0..len as u32).map(|i| i.wrapping_mul(2654435761) % 10_000).collect();
        assert_eq!(queued_scan(&mut w, &mut stages, input.clone()), reference_scan(&input));
        assert_eq!(capacities(&w), vec![391, 2, 1]);
    }
    assert_eq!(queued_scan(&mut w, &mut stages, large.clone()), reference_scan(&large));
}

#[test]
fn queued_scan_agrees_with_the_sequential_scan() {
    let mut w = PrefixSumWorkspace::with_capacity(15071);
    let mut stages = Vec::new();
    let input: Vec<u32> = (0..15071u32).map(|i| i.wrapping_mul(40503) % 10_000).collect();
    assert_eq!(queued_scan(&mut w, &mut stages, input.clone()), scan(input));
}

#[test]
fn reserve_changes_nothing_for_the_same_length() {
    let mut w = PrefixSumWorkspace::with_capacity(100_000);
    w.reserve(99_900);
    assert_eq!(capacities(&w), vec![391, 2, 1]);
    assert_eq!(w.num_stages, 3);
    assert_eq!(w.stages[0], PrefixSumStage { capacity: 391 });
}

fn kernel(inv: &Invocation) -> (Pipeline, Vec<Vec<BindGroupEntry>>, Workgroups) {
    match inv {
        Invocation::Kernel(k) => (
            k.pipeline,
            k.bind_groups.iter().map(|g| g.entries.clone()).collect(),
            k.workgroups,
        ),
        Invocation::ComputePass { .. } => panic!("a kernel was expected"),
    }
}

fn pair(a: Buffer, b: Buffer) -> Vec<Vec<BindGroupEntry>> {
    vec![vec![
        BindGroupEntry { binding: 0, buffer: a },
        BindGroupEntry { binding: 1, buffer: b },
    ]]
}

#[test]
fn queue_scan_over_three_levels() {
    let mut queue = KernelInvocationQueue::new();
    let mut w = PrefixSumWorkspace::new();
    WgPrefixSum {}.queue(&mut queue, &mut w, Buffer::GridScanValues, 100_000);
    assert_eq!(capacities(&w), vec![391, 2, 1]);
    let got: Vec<_> = queue.invocations.iter().map(kernel).collect();
    let expected = vec![
        (
            Pipeline::PrefixSum,
            pair(Buffer::GridScanValues, Buffer::PrefixSumStage(0)),
            Workgroups::Direct(391),
        ),
        (
            Pipeline::PrefixSum,
            pair(Buffer::PrefixSumStage(0), Buffer::PrefixSumStage(1)),
            Workgroups::Direct(2),
        ),
        (
            Pipeline::PrefixSum,
            pair(Buffer::PrefixSumStage(1), Buffer::PrefixSumStage(2)),
            Workgroups::Direct(1),
        ),
        (
            Pipeline::AddDataGrp,
            pair(Buffer::PrefixSumStage(0), Buffer::PrefixSumStage(1)),
            Workgroups::Direct(2),
        ),
        (
            Pipeline::AddDataGrp,
            pair(Buffer::GridScanValues, Buffer::PrefixSumStage(0)),
            Workgroups::Direct(391),
        ),
    ];
    assert_eq!(got, expected);
}

#[test]
fn queue_scan_over_one_level_queues_one_kernel() {
    let mut queue = KernelInvocationQueue::new();
    let mut w = PrefixSumWorkspace::new();
    WgPrefixSum {}.queue(&mut queue, &mut w, Buffer::GridScanValues, 200);
    assert_eq!(queue.len(), 1);
    let (pipeline, groups, workgroups) = kernel(&queue.invocations[0]);
    assert_eq!(pipeline, Pipeline::PrefixSum);
    assert_eq!(groups, pair(Buffer::GridScanValues, Buffer::PrefixSumStage(0)));
    assert_eq!(workgroups, Workgroups::Direct(1));
}

#[test]
fn queue_scan_over_two_levels() {
    let mut queue = KernelInvocationQueue::new();
    let mut w = PrefixSumWorkspace::new();
    WgPrefixSum {}.queue(&mut queue, &mut w, Buffer::GridScanValues, 15071);
    let pipelines: Vec<Pipeline> = queue.invocations.iter().map(|i| kernel(i).0).collect();
    assert_eq!(
        pipelines,
        vec![Pipeline::PrefixSum, Pipeline::PrefixSum, Pipeline::AddDataGrp]
    );
    assert_eq!(kernel(&queue.invocations[2]).2, Workgroups::Direct(59));
}

#[test]
fn workspace_consistency() {
    assert!(PrefixSumWorkspace::new().is_wf());
    let mut w = PrefixSumWorkspace::with_capacity(100_000);
    assert!(w.is_wf());
    w.reserve(100);
    assert!(w.is_wf());
    w.stages.pop();
    assert!(!w.is_wf());
    let mut longer = PrefixSumWorkspace::with_capacity(100);
    longer.stages.push(PrefixSumStage { capacity: 1 });
    assert!(!longer.is_wf());
    let mut none = PrefixSumWorkspace::new();
    none.num_stages = 1;
    assert!(!none.is_wf());
}
