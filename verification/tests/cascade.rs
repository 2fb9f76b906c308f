use wgsparkl::dvector::U32Vector;
use wgsparkl::grid::cascade::{add_data_grp, scan_cascade, scan_groups};
use wgsparkl::grid::prefix_sum::WgPrefixSum;

fn reference_scan(input: &[u32]) -> Vec<u32> {
    let mut out = Vec::with_capacity(input.len());
    let mut total: u32 = 0;
    for x in input {
        out.push(total);
        total = total.wrapping_add(*x);
    }
    out
}

fn pseudo_random(len: usize, modulus: u32) -> Vec<u32> {
    let mut state: u32 = 0x9e37_79b9;
    let mut input = Vec::with_capacity(len);
    for _ in 0..len {
        state ^= state << 13;
        state ^= state >> 17;
        state ^= state << 5;
        input.push(state % modulus);
    }
    input
}

fn check(input: Vec<u32>) {
    let mut data = input.clone();
    scan_cascade(&mut data);
    assert_eq!(data, reference_scan(&input));
    if !input.is_empty() {
        let mut v = U32Vector::from_vec(input);
        WgPrefixSum {}.eval_cpu(&mut v);
        assert_eq!(data, v.to_vec());
    }
}

#[test]
fn cascade_of_nothing_and_of_one_value() {
    check(vec![]);
    check(vec![42]);
}

#[test]
fn cascade_at_group_boundaries() {
    for len in [255usize, 256, 257, 511, 512, 513, 65_535, 65_536, 65_537] {
        check(vec![1; len]);
        check((0..len as u32).collect());
    }
}

#[test]
fn cascade_of_15071_values() {
    check(vec![1; 15071]);
    check((0..15071u32).collect());
    check(pseudo_random(15071, 10_000));
}

#[test]
fn cascade_over_three_levels() {
    check(pseudo_random(70_000, 10_000));
}

#[test]
fn cascade_wraps_modulo_two_to_the_32() {
    check(pseudo_random(1000, u32::MAX));
    check(vec![u32::MAX; 600]);
}

#[test]
fn group_scan_and_totals() {
    let mut data: Vec<u32> = vec![2; 600];
    let mut aux = vec![0; 3];
    scan_groups(&mut data, &mut aux);
    assert_eq!(aux, vec![512, 512, 176]);
    assert_eq!(data[0], 0);
    assert_eq!(data[255], 510);
    assert_eq!(data[256], 0);
    assert_eq!(data[599], 174);
    add_data_grp(&mut data, &vec![0, 512, 1024]);
    assert_eq!(data[255], 510);
    assert_eq!(data[256], 512);
    assert_eq!(data[599], 1198);
}
