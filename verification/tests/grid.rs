use wgsparkl::arith::{check_power_of_two, div_ceil, next_power_of_two};
use wgsparkl::grid::blocks::{BlockTable, BlockVirtualId, DispatchIndirectArgs, GridError};
use wgsparkl::grid::grid::{GpuGrid, WgGrid, MAX_GRID_CAPACITY, NODES_PER_BLOCK};
use wgsparkl::grid::prefix_sum::{PrefixSumWorkspace, WgPrefixSum};
use wgsparkl::grid::node_lists::{sort_rigid_particles, NONE};
use wgsparkl::grid::sort::WgSort;
use wgsparkl::queue::{Buffer, Invocation, KernelInvocationQueue, Pipeline, Workgroups};
use wgsparkl::solver::particle::{GpuParticles, GpuRigidParticles};

fn id(x: i32, y: i32, z: i32) -> BlockVirtualId {
    BlockVirtualId { x, y, z }
}

#[test]
fn div_ceil_values() {
    assert_eq!(div_ceil(0, 64), 0);
    assert_eq!(div_ceil(1, 64), 1);
    assert_eq!(div_ceil(64, 64), 1);
    assert_eq!(div_ceil(65, 64), 2);
    assert_eq!(div_ceil(u32::MAX, 256), 16777216);
    assert_eq!(div_ceil(u32::MAX, 1), u32::MAX);
}

#[test]
fn next_power_of_two_values() {
    assert_eq!(next_power_of_two(0), 1);
    assert_eq!(next_power_of_two(1), 1);
    assert_eq!(next_power_of_two(2), 2);
    assert_eq!(next_power_of_two(3), 4);
    assert_eq!(next_power_of_two(100_000), 131_072);
    assert_eq!(next_power_of_two(0x8000_0000), 0x8000_0000);
}

#[test]
fn grid_layout_for_100000_blocks() {
    let grid = GpuGrid::with_capacity(100_000);
    assert_eq!(grid.cpu_meta.capacity, 131_072);
    assert_eq!(grid.cpu_meta.hmap_capacity, 131_072);
    assert_eq!(grid.cpu_meta.num_active_blocks, 0);
    assert_eq!(grid.hmap_entries_len, 131_072);
    assert_eq!(grid.active_blocks_len, 131_072);
    assert_eq!(grid.scan_values_len, 131_072);
    assert_eq!(grid.nodes_len, 131_072 * NODES_PER_BLOCK);
    assert_eq!(grid.nodes_linked_lists_len, 8_388_608);
    assert_eq!(grid.nodes_rigid_linked_lists_len, 8_388_608);
    assert_eq!(grid.debug_len, 2);
}

#[test]
fn grid_layout_at_the_edges() {
    assert_eq!(GpuGrid::with_capacity(0).cpu_meta.capacity, 1);
    assert_eq!(GpuGrid::with_capacity(8).cpu_meta.capacity, 8);
    let largest = GpuGrid::with_capacity(MAX_GRID_CAPACITY);
    assert_eq!(largest.cpu_meta.capacity, 0x200_0000);
    assert_eq!(largest.nodes_len, 0x8000_0000);
}

fn pipelines(queue: &KernelInvocationQueue) -> Vec<Pipeline> {
    queue
        .invocations
        .iter()
        .map(|i| match i {
            Invocation::Kernel(k) => k.pipeline,
            Invocation::ComputePass { .. } => panic!("a kernel was expected"),
        })
        .collect()
}

fn workgroups(queue: &KernelInvocationQueue) -> Vec<Workgroups> {
    queue
        .invocations
        .iter()
        .map(|i| match i {
            Invocation::Kernel(k) => k.workgroups,
            Invocation::ComputePass { .. } => panic!("a kernel was expected"),
        })
        .collect()
}

#[test]
fn queue_sort_for_a_thousand_particles() {
    let particles = GpuParticles::from_particles(1000);
    let rigid = GpuRigidParticles::new();
    let grid = GpuGrid::with_capacity(100_000);
    let mut prefix_sum = PrefixSumWorkspace::with_capacity(100_000);
    let mut queue = KernelInvocationQueue::new();
    WgGrid {}.queue_sort(
        &particles,
        &rigid,
        &grid,
        &mut prefix_sum,
        &WgSort {},
        &WgPrefixSum {},
        &mut queue,
    );
    assert_eq!(
        pipelines(&queue),
        vec![
            Pipeline::ResetHmap,
            Pipeline::TouchParticleBlocks,
            Pipeline::MarkRigidParticlesNeedingBlock,
            Pipeline::TouchRigidParticleBlocks,
            Pipeline::InitIndirectWorkgroups,
            Pipeline::UpdateBlockParticleCount,
            Pipeline::CopyParticlesLenToScanValue,
            Pipeline::PrefixSum,
            Pipeline::PrefixSum,
            Pipeline::PrefixSum,
            Pipeline::AddDataGrp,
            Pipeline::AddDataGrp,
            Pipeline::CopyScanValuesToFirstParticles,
            Pipeline::Reset,
            Pipeline::FinalizeParticlesSort,
        ]
    );
    let blocks = Workgroups::Indirect(Buffer::GridIndirectNBlocksGroups);
    assert_eq!(
        workgroups(&queue),
        vec![
            Workgroups::Direct(2048),
            Workgroups::Direct(16),
            Workgroups::Direct(0),
            Workgroups::Direct(0),
            Workgroups::Direct(1),
            Workgroups::Direct(16),
            blocks,
            Workgroups::Direct(512),
            Workgroups::Direct(2),
            Workgroups::Direct(1),
            Workgroups::Direct(2),
            Workgroups::Direct(512),
            blocks,
            blocks,
            Workgroups::Direct(16),
        ]
    );
    // The workspace was made for the requested capacity and now fits the
    // scan values of the grid, which are more.
    let caps: Vec<u32> = prefix_sum.stages.iter().map(|s| s.capacity).collect();
    assert_eq!(caps, vec![512, 2, 1]);
}

#[test]
fn queue_sort_binds_the_touch_kernel() {
    let particles = GpuParticles::from_particles(65);
    let rigid = GpuRigidParticles::with_samples(130);
    let grid = GpuGrid::with_capacity(64);
    let mut prefix_sum = PrefixSumWorkspace::new();
    let mut queue = KernelInvocationQueue::new();
    WgGrid {}.queue_sort(
        &particles,
        &rigid,
        &grid,
        &mut prefix_sum,
        &WgSort {},
        &WgPrefixSum {},
        &mut queue,
    );
    match &queue.invocations[1] {
        Invocation::Kernel(k) => {
            assert_eq!(k.pipeline, Pipeline::TouchParticleBlocks);
            assert_eq!(k.workgroups, Workgroups::Direct(2));
            assert_eq!(k.bind_groups.len(), 2);
            assert_eq!(k.bind_groups[0].id, 0);
            let first: Vec<(u32, Buffer)> =
                k.bind_groups[0].entries.iter().map(|e| (e.binding, e.buffer)).collect();
            assert_eq!(
                first,
                vec![
                    (0, Buffer::GridMeta),
                    (1, Buffer::GridHmapEntries),
                    (2, Buffer::GridActiveBlocks),
                    (8, Buffer::GridDebug),
                ]
            );
            assert_eq!(k.bind_groups[1].id, 1);
            let second: Vec<(u32, Buffer)> =
                k.bind_groups[1].entries.iter().map(|e| (e.binding, e.buffer)).collect();
            assert_eq!(second, vec![(0, Buffer::ParticlePositions)]);
        }
        Invocation::ComputePass { .. } => panic!("a kernel was expected"),
    }
    assert_eq!(workgroups(&queue)[2], Workgroups::Direct(3));
    assert_eq!(workgroups(&queue)[3], Workgroups::Direct(3));
    assert_eq!(workgroups(&queue)[0], Workgroups::Direct(1));
}

#[test]
fn rigid_sort_is_left_out_without_samples() {
    let grid = GpuGrid::with_capacity(64);
    let mut queue = KernelInvocationQueue::new();
    WgSort {}.queue_sort_rigid_particles(&GpuRigidParticles::new(), &grid, &mut queue);
    assert_eq!(queue.len(), 0);
    WgSort {}.queue_sort_rigid_particles(&GpuRigidParticles::with_samples(65), &grid, &mut queue);
    assert_eq!(pipelines(&queue), vec![Pipeline::SortRigidParticles]);
    assert_eq!(workgroups(&queue), vec![Workgroups::Direct(2)]);
}

#[test]
fn rigid_particles_flag_words() {
    assert_eq!(GpuRigidParticles::new().needs_block_words, 0);
    assert_eq!(GpuRigidParticles::with_samples(1).needs_block_words, 1);
    assert_eq!(GpuRigidParticles::with_samples(32).needs_block_words, 1);
    assert_eq!(GpuRigidParticles::with_samples(33).needs_block_words, 2);
    assert_eq!(GpuRigidParticles::with_samples(33).len(), 33);
    assert!(GpuRigidParticles::new().is_empty());
    assert!(!GpuRigidParticles::with_samples(1).is_empty());
    assert_eq!(GpuParticles::from_particles(7).len(), 7);
    assert!(GpuParticles::from_particles(0).is_empty());
}

#[test]
fn block_of_a_node() {
    assert_eq!(BlockVirtualId::of_node_3d(0, 3, 4), id(0, 0, 1));
    assert_eq!(BlockVirtualId::of_node_3d(-1, -4, -5), id(-1, -1, -2));
    assert_eq!(BlockVirtualId::of_node_3d(i32::MIN, i32::MAX, 7), id(-536870912, 536870911, 1));
    assert_eq!(BlockVirtualId::of_node_2d(7, 8), id(0, 1, 0));
    assert_eq!(BlockVirtualId::of_node_2d(-8, -9), id(-1, -2, 0));
}

#[test]
fn touch_is_idempotent() {
    let mut table = BlockTable::with_capacity(4);
    assert_eq!(table.touch(id(1, 2, 3)), Ok(0));
    assert_eq!(table.touch(id(-1, 0, 0)), Ok(1));
    assert_eq!(table.touch(id(1, 2, 3)), Ok(0));
    assert_eq!(table.num_active_blocks, 2);
    assert_eq!(table.find(id(1, 2, 3)), Some(0));
    assert_eq!(table.find(id(-1, 0, 0)), Some(1));
    assert_eq!(table.find(id(0, 0, 0)), None);
    assert_eq!(table.active_blocks[1].virtual_id, id(-1, 0, 0));
}

#[test]
fn touch_fails_when_the_table_is_full() {
    let mut table = BlockTable::with_capacity(2);
    assert_eq!(table.touch(id(0, 0, 0)), Ok(0));
    assert_eq!(table.touch(id(1, 0, 0)), Ok(1));
    assert_eq!(table.touch(id(2, 0, 0)), Err(GridError::CapacityExceeded));
    assert_eq!(table.touch(id(1, 0, 0)), Ok(1));
    assert_eq!(table.num_active_blocks, 2);
    assert_eq!(table.find(id(2, 0, 0)), None);
    table.reset_hmap();
    assert_eq!(table.num_active_blocks, 0);
    assert_eq!(table.find(id(0, 0, 0)), None);
    assert_eq!(table.touch(id(2, 0, 0)), Ok(0));
}

#[test]
fn table_holds_many_colliding_blocks() {
    let mut table = BlockTable::with_capacity(64);
    for i in 0..64 {
        assert_eq!(table.touch(id(i, -i, 2 * i)), Ok(i as u32));
    }
    for i in 0..64 {
        assert_eq!(table.find(id(i, -i, 2 * i)), Some(i as u32));
    }
    assert_eq!(table.touch(id(64, 0, 0)), Err(GridError::CapacityExceeded));
}

#[test]
fn sort_small_particle_set() {
    let a = id(0, 0, 0);
    let b = id(1, 0, 0);
    let c = id(0, -1, 0);
    let blocks = vec![b, a, b, c, a, b];
    let mut table = BlockTable::with_capacity(4);
    let sorted = table.sort_particles(&blocks, &WgPrefixSum {}).unwrap();
    assert_eq!(table.num_active_blocks, 3);
    assert_eq!(table.active_blocks[0].virtual_id, b);
    assert_eq!(table.active_blocks[1].virtual_id, a);
    assert_eq!(table.active_blocks[2].virtual_id, c);
    assert_eq!(table.active_blocks[0].num_particles, 3);
    assert_eq!(table.active_blocks[1].num_particles, 2);
    assert_eq!(table.active_blocks[2].num_particles, 1);
    assert_eq!(table.active_blocks[0].first_particle, 0);
    assert_eq!(table.active_blocks[1].first_particle, 3);
    assert_eq!(table.active_blocks[2].first_particle, 5);
    assert_eq!(sorted, vec![0, 2, 5, 1, 4, 3]);
}

#[test]
fn sort_of_no_particle() {
    let mut table = BlockTable::with_capacity(1);
    let sorted = table.sort_particles(&Vec::new(), &WgPrefixSum {}).unwrap();
    assert!(sorted.is_empty());
    assert_eq!(table.num_active_blocks, 0);
}

#[test]
fn sort_fails_on_too_many_blocks() {
    let blocks = vec![id(0, 0, 0), id(1, 0, 0), id(0, 0, 0), id(2, 0, 0)];
    let mut table = BlockTable::with_capacity(2);
    assert_eq!(
        table.sort_particles(&blocks, &WgPrefixSum {}),
        Err(GridError::CapacityExceeded)
    );
    let mut larger = BlockTable::with_capacity(3);
    assert_eq!(larger.active_blocks.len(), 4);
    assert!(larger.sort_particles(&blocks, &WgPrefixSum {}).is_ok());
    assert_eq!(BlockTable::with_capacity(0).hmap_entries.len(), 1);
}

#[test]
fn sort_of_a_particle_cube_is_a_permutation() {
    // Ten particles along each axis, two to a grid cell.
    let mut blocks = Vec::new();
    for i in 0..10 {
        for j in 0..10 {
            for k in 0..10 {
                blocks.push(BlockVirtualId::of_node_3d(i / 2, j / 2, k / 2));
            }
        }
    }
    let mut table = BlockTable::with_capacity(100);
    assert_eq!(table.hmap_entries.len(), 128);
    let sorted = table.sort_particles(&blocks, &WgPrefixSum {}).unwrap();
    assert_eq!(sorted.len(), 1000);
    let mut seen = vec![false; 1000];
    for p in &sorted {
        assert!(!seen[*p as usize]);
        seen[*p as usize] = true;
    }
    assert!(seen.iter().all(|s| *s));
    // Nodes 0..5 along each axis lie in two blocks per axis.
    let n = table.num_active_blocks as usize;
    assert_eq!(n, 8);
    let mut total = 0;
    for b in 0..n {
        let header = table.active_blocks[b];
        assert_eq!(header.first_particle, total);
        for k in header.first_particle..header.first_particle + header.num_particles {
            assert_eq!(blocks[sorted[k as usize] as usize], header.virtual_id);
        }
        total += header.num_particles;
    }
    assert_eq!(total, 1000);
}

#[test]
fn indirect_workgroups_follow_the_active_blocks() {
    let mut table = BlockTable::with_capacity(128);
    let one = |x| DispatchIndirectArgs { x, y: 1, z: 1 };
    assert_eq!(table.init_indirect_workgroups(), (one(0), one(0)));
    for i in 0..65 {
        table.touch(id(i, 0, 0)).unwrap();
    }
    assert_eq!(table.init_indirect_workgroups(), (one(2), one(65)));
}

#[test]
fn samples_are_linked_by_node() {
    let nodes = vec![2, 0, 2, 2, 1, 0];
    let lists = sort_rigid_particles(&nodes, 4);
    assert_eq!(lists.heads, vec![5, 4, 3, NONE]);
    assert_eq!(lists.next, vec![NONE, NONE, 0, 2, NONE, 1]);
    // Every sample is met once when the lists are walked.
    let mut seen = vec![false; nodes.len()];
    for node in 0..4u32 {
        let mut at = lists.heads[node as usize];
        while at != NONE {
            assert_eq!(nodes[at as usize], node);
            assert!(!seen[at as usize]);
            seen[at as usize] = true;
            at = lists.next[at as usize];
        }
    }
    assert!(seen.iter().all(|s| *s));
    let empty = sort_rigid_particles(&Vec::new(), 2);
    assert_eq!(empty.heads, vec![NONE, NONE]);
    assert!(empty.next.is_empty());
}

#[test]
fn more_blocks_than_the_grid_holds_fail_loudly() {
    let grid = GpuGrid::with_capacity(100);
    assert_eq!(grid.check_active_blocks(0), Ok(()));
    assert_eq!(grid.check_active_blocks(128), Ok(()));
    assert_eq!(grid.check_active_blocks(129), Err(GridError::CapacityExceeded));
    assert_eq!(grid.check_active_blocks(u32::MAX), Err(GridError::CapacityExceeded));
}

#[test]
fn powers_of_two() {
    for n in [1u32, 2, 4, 64, 131_072, 0x8000_0000] {
        assert!(check_power_of_two(n));
    }
    for n in [0u32, 3, 6, 48, 100_000, u32::MAX] {
        assert!(!check_power_of_two(n));
    }
    assert!(GpuGrid::with_capacity(100).is_wf());
    let mut grid = GpuGrid::with_capacity(100);
    grid.nodes_len = 1;
    assert!(!grid.is_wf());
}
