use wgsparkl::pipeline::{
    BodyCoupling, BodyCouplingEntry, ColliderDesc, MpmData, MpmError, MpmPipeline,
};
use wgsparkl::queue::{
    Buffer, ComputePass, Invocation, KernelInvocationQueue, Pipeline, Workgroups,
};
use wgsparkl::solver::rigid_impulses::{GpuImpulses, MAX_BODY_COUNT};

fn collider(parent: Option<u32>, num_samples: u32, num_shape_vertices: u32) -> ColliderDesc {
    ColliderDesc { parent, num_samples, num_shape_vertices }
}

fn entry(body: u32, collider: u32) -> BodyCouplingEntry {
    BodyCouplingEntry { body, collider, mode: BodyCoupling::TwoWays }
}

#[derive(Debug, PartialEq, Clone, Copy)]
enum Step {
    Pass(ComputePass),
    Kernel(Pipeline),
}

fn steps(queue: &KernelInvocationQueue) -> Vec<Step> {
    queue
        .invocations
        .iter()
        .map(|i| match i {
            Invocation::Kernel(k) => Step::Kernel(k.pipeline),
            Invocation::ComputePass { pass, .. } => Step::Pass(*pass),
        })
        .collect()
}

#[test]
fn new_couples_every_collider_with_a_parent() {
    let colliders = vec![
        collider(Some(7), 100, 8),
        collider(None, 50, 4),
        collider(Some(3), 0, 0),
        collider(Some(7), 20, 6),
    ];
    let data = MpmData::new(1000, &colliders, 100_000).unwrap();
    assert_eq!(data.coupling(), &vec![entry(7, 0), entry(3, 2), entry(7, 3)]);
    assert_eq!(data.particles.num_particles, 1000);
    assert_eq!(data.rigid_particles.num_samples, 120);
    assert_eq!(data.rigid_particles.needs_block_words, 4);
    assert_eq!(data.bodies.num_bodies, 3);
    assert_eq!(data.bodies.num_shape_vertices, 14);
    assert_eq!(data.poses_staging_len, 3);
    assert_eq!(data.grid.cpu_meta.capacity, 131_072);
    assert_eq!(data.impulses, GpuImpulses::new());
    assert_eq!(data.impulses.incremental_impulses_len, 16);
    let caps: Vec<u32> = data.prefix_sum.stages.iter().map(|s| s.capacity).collect();
    assert_eq!(caps, vec![391, 2, 1]);
}

#[test]
fn select_coupling_counts_a_collider_as_often_as_it_is_coupled() {
    let colliders = vec![collider(Some(0), 10, 3), collider(None, 5, 2)];
    let coupling = vec![
        BodyCouplingEntry { body: 0, collider: 1, mode: BodyCoupling::OneWay },
        entry(0, 0),
        entry(0, 1),
    ];
    let data = MpmData::with_select_coupling(4, &colliders, coupling.clone(), 16).unwrap();
    assert_eq!(data.coupling(), &coupling);
    assert_eq!(data.rigid_particles.num_samples, 20);
    assert_eq!(data.bodies.num_shape_vertices, 7);
    assert_eq!(data.bodies.num_bodies, 3);
}

#[test]
fn sixteen_bodies_can_be_coupled_and_no_more() {
    assert_eq!(MAX_BODY_COUNT, 16);
    let colliders: Vec<ColliderDesc> = (0..17).map(|i| collider(Some(i), 1, 1)).collect();
    let sixteen: Vec<BodyCouplingEntry> = (0..16).map(|i| entry(i, i)).collect();
    assert!(MpmData::with_select_coupling(1, &colliders, sixteen, 16).is_ok());
    let seventeen: Vec<BodyCouplingEntry> = (0..17).map(|i| entry(i, i)).collect();
    assert_eq!(
        MpmData::with_select_coupling(1, &colliders, seventeen, 16).err(),
        Some(MpmError::TooManyCoupledBodies)
    );
    assert_eq!(MpmData::new(1, &colliders, 16).err(), Some(MpmError::TooManyCoupledBodies));
}

#[test]
fn unknown_collider_is_refused() {
    let colliders = vec![collider(Some(0), 1, 1)];
    assert_eq!(
        MpmData::with_select_coupling(1, &colliders, vec![entry(0, 1)], 16).err(),
        Some(MpmError::UnknownCollider)
    );
}

#[test]
fn grid_capacity_out_of_range_is_refused() {
    let colliders = Vec::new();
    let least = MpmData::new(1, &colliders, 0).unwrap();
    assert_eq!(least.grid.cpu_meta.capacity, 1);
    assert_eq!(least.prefix_sum.stages.len(), 1);
    assert_eq!(
        MpmData::new(1, &colliders, 0x200_0001).err(),
        Some(MpmError::InvalidGridCapacity)
    );
    assert!(MpmData::new(1, &colliders, 1).is_ok());
}

#[test]
fn too_many_samples_are_refused() {
    let colliders = vec![collider(Some(0), u32::MAX, 0), collider(Some(1), 1, 0)];
    assert_eq!(MpmData::new(1, &colliders, 16).err(), Some(MpmError::TooManySamples));
    let vertices = vec![collider(Some(0), 0, u32::MAX), collider(Some(1), 0, 1)];
    assert_eq!(MpmData::new(1, &vertices, 16).err(), Some(MpmError::TooManySamples));
    let fits = vec![collider(Some(0), u32::MAX - 1, 0), collider(Some(1), 1, 0)];
    assert!(MpmData::new(1, &fits, 16).is_ok());
}

#[test]
fn too_many_particles_are_refused() {
    let colliders = Vec::new();
    let too_many = u32::MAX as usize + 1;
    assert_eq!(MpmData::new(too_many, &colliders, 16).err(), Some(MpmError::TooManyParticles));
    assert!(MpmData::new(u32::MAX as usize, &colliders, 16).is_ok());
}

#[test]
fn errors_come_in_a_fixed_order() {
    let colliders: Vec<ColliderDesc> = Vec::new();
    let seventeen: Vec<BodyCouplingEntry> = (0..17).map(|i| entry(i, i)).collect();
    assert_eq!(
        MpmData::with_select_coupling(1, &colliders, seventeen, u32::MAX).err(),
        Some(MpmError::TooManyCoupledBodies)
    );
    assert_eq!(
        MpmData::with_select_coupling(1, &colliders, vec![entry(0, 0)], u32::MAX).err(),
        Some(MpmError::UnknownCollider)
    );
}

#[test]
fn step_without_rigid_samples() {
    let mut data = MpmData::new(1000, &Vec::new(), 100_000).unwrap();
    let mut queue = KernelInvocationQueue::new();
    MpmPipeline::new().queue_step(&mut data, &mut queue, false);
    let k = Step::Kernel;
    let expected = vec![
        Step::Pass(ComputePass::UpdateRigidParticles),
        Step::Pass(ComputePass::GridSort),
        k(Pipeline::ResetHmap),
        k(Pipeline::TouchParticleBlocks),
        k(Pipeline::MarkRigidParticlesNeedingBlock),
        k(Pipeline::TouchRigidParticleBlocks),
        k(Pipeline::InitIndirectWorkgroups),
        k(Pipeline::UpdateBlockParticleCount),
        k(Pipeline::CopyParticlesLenToScanValue),
        k(Pipeline::PrefixSum),
        k(Pipeline::PrefixSum),
        k(Pipeline::PrefixSum),
        k(Pipeline::AddDataGrp),
        k(Pipeline::AddDataGrp),
        k(Pipeline::CopyScanValuesToFirstParticles),
        k(Pipeline::Reset),
        k(Pipeline::FinalizeParticlesSort),
        Step::Pass(ComputePass::GridUpdateCdf),
        k(Pipeline::GridUpdateCdf),
        Step::Pass(ComputePass::P2GCdf),
        Step::Pass(ComputePass::G2PCdf),
        k(Pipeline::G2PCdf),
        Step::Pass(ComputePass::P2G),
        k(Pipeline::P2G),
        Step::Pass(ComputePass::GridUpdate),
        k(Pipeline::GridUpdate),
        Step::Pass(ComputePass::G2P),
        k(Pipeline::G2P),
        Step::Pass(ComputePass::ParticlesUpdate),
        k(Pipeline::ParticleUpdate),
        Step::Pass(ComputePass::IntegrateBodies),
    ];
    assert_eq!(steps(&queue), expected);
}

#[test]
fn step_with_rigid_samples() {
    let colliders = vec![collider(Some(0), 130, 65)];
    let mut data = MpmData::new(10, &colliders, 64).unwrap();
    let mut queue = KernelInvocationQueue::new();
    MpmPipeline::new().queue_step(&mut data, &mut queue, true);
    let k = Step::Kernel;
    let expected = vec![
        Step::Pass(ComputePass::UpdateRigidParticles),
        k(Pipeline::UpdateWorldMassProperties),
        k(Pipeline::TransformSamplePoints),
        k(Pipeline::TransformShapePoints),
        Step::Pass(ComputePass::GridSort),
        k(Pipeline::ResetHmap),
        k(Pipeline::TouchParticleBlocks),
        k(Pipeline::MarkRigidParticlesNeedingBlock),
        k(Pipeline::TouchRigidParticleBlocks),
        k(Pipeline::InitIndirectWorkgroups),
        k(Pipeline::UpdateBlockParticleCount),
        k(Pipeline::CopyParticlesLenToScanValue),
        k(Pipeline::PrefixSum),
        k(Pipeline::CopyScanValuesToFirstParticles),
        k(Pipeline::Reset),
        k(Pipeline::FinalizeParticlesSort),
        k(Pipeline::SortRigidParticles),
        Step::Pass(ComputePass::GridUpdateCdf),
        k(Pipeline::GridUpdateCdf),
        Step::Pass(ComputePass::P2GCdf),
        k(Pipeline::P2GCdf),
        Step::Pass(ComputePass::G2PCdf),
        k(Pipeline::G2PCdf),
        Step::Pass(ComputePass::P2G),
        k(Pipeline::P2G),
        Step::Pass(ComputePass::GridUpdate),
        k(Pipeline::GridUpdate),
        Step::Pass(ComputePass::G2P),
        k(Pipeline::G2P),
        Step::Pass(ComputePass::ParticlesUpdate),
        k(Pipeline::ParticleUpdate),
        Step::Pass(ComputePass::IntegrateBodies),
        k(Pipeline::RigidImpulsesUpdate),
    ];
    assert_eq!(steps(&queue), expected);
    for i in &queue.invocations {
        if let Invocation::ComputePass { add_timestamps, .. } = i {
            assert!(*add_timestamps);
        }
    }
    match &queue.invocations[2] {
        Invocation::Kernel(kernel) => assert_eq!(kernel.workgroups, Workgroups::Direct(3)),
        Invocation::ComputePass { .. } => panic!("a kernel was expected"),
    }
    match &queue.invocations[3] {
        Invocation::Kernel(kernel) => assert_eq!(kernel.workgroups, Workgroups::Direct(2)),
        Invocation::ComputePass { .. } => panic!("a kernel was expected"),
    }
}

#[test]
fn step_sizes_the_indirect_dispatches_before_it_uses_them() {
    let colliders = vec![collider(Some(0), 130, 65)];
    let mut data = MpmData::new(10, &colliders, 64).unwrap();
    let mut queue = KernelInvocationQueue::new();
    MpmPipeline::new().queue_step(&mut data, &mut queue, false);
    let sizing = queue
        .invocations
        .iter()
        .position(|i| matches!(i, Invocation::Kernel(k) if k.pipeline == Pipeline::InitIndirectWorkgroups))
        .unwrap();
    let mut indirect = 0;
    for (at, i) in queue.invocations.iter().enumerate() {
        if let Invocation::Kernel(k) = i {
            if let Workgroups::Indirect(buffer) = k.workgroups {
                indirect += 1;
                assert!(at > sizing);
                assert!(
                    buffer == Buffer::GridIndirectNBlocksGroups
                        || buffer == Buffer::GridIndirectNG2pP2gGroups
                );
            }
        }
    }
    assert_eq!(indirect, 9);
}

#[test]
fn a_second_step_queues_the_same_work() {
    let mut data = MpmData::new(1000, &Vec::new(), 100_000).unwrap();
    let pipeline = MpmPipeline::new();
    let mut first = KernelInvocationQueue::new();
    pipeline.queue_step(&mut data, &mut first, false);
    let mut second = KernelInvocationQueue::new();
    pipeline.queue_step(&mut data, &mut second, false);
    assert_eq!(steps(&first), steps(&second));
    second.clear();
    assert_eq!(second.len(), 0);
}

#[test]
fn pass_labels() {
    assert_eq!(ComputePass::UpdateRigidParticles.label(), "update rigid particles");
    assert_eq!(ComputePass::GridSort.label(), "grid sort");
    assert_eq!(ComputePass::GridUpdateCdf.label(), "grid_update_cdf");
    assert_eq!(ComputePass::P2GCdf.label(), "p2g_cdf");
    assert_eq!(ComputePass::G2PCdf.label(), "g2p_cdf");
    assert_eq!(ComputePass::P2G.label(), "p2g");
    assert_eq!(ComputePass::GridUpdate.label(), "grid_update");
    assert_eq!(ComputePass::G2P.label(), "g2p");
    assert_eq!(ComputePass::ParticlesUpdate.label(), "particles_update");
    assert_eq!(ComputePass::IntegrateBodies.label(), "integrate_bodies");
}

#[test]
fn substeps_repeat_the_step() {
    let colliders = vec![collider(Some(0), 130, 65)];
    let pipeline = MpmPipeline::new();
    let mut data = MpmData::new(10, &colliders, 64).unwrap();
    let mut one = KernelInvocationQueue::new();
    pipeline.queue_step(&mut data, &mut one, false);
    let mut fresh = MpmData::new(10, &colliders, 64).unwrap();
    let mut ten = KernelInvocationQueue::new();
    pipeline.queue_substeps(&mut fresh, &mut ten, 10, false);
    let step = steps(&one);
    let all = steps(&ten);
    assert_eq!(all.len(), 10 * step.len());
    for (i, s) in all.iter().enumerate() {
        assert_eq!(*s, step[i % step.len()]);
    }
    let mut none = KernelInvocationQueue::new();
    pipeline.queue_substeps(&mut fresh, &mut none, 0, false);
    assert_eq!(none.len(), 0);
}

#[test]
fn the_state_as_built_is_consistent() {
    let colliders = vec![collider(Some(0), 130, 65)];
    let mut data = MpmData::new(10, &colliders, 64).unwrap();
    assert!(data.is_wf());
    let mut queue = KernelInvocationQueue::new();
    MpmPipeline::new().queue_substeps(&mut data, &mut queue, 3, false);
    assert!(data.is_wf());
    let mut broken = MpmData::new(10, &colliders, 64).unwrap();
    broken.grid.cpu_meta.capacity = 48;
    assert!(!broken.is_wf());
    let mut stale = MpmData::new(10, &colliders, 64).unwrap();
    stale.prefix_sum.num_stages = 5;
    assert!(!stale.is_wf());
    let mut uneven = MpmData::new(10, &colliders, 64).unwrap();
    uneven.prefix_sum.stages[0].capacity = 300;
    assert!(!uneven.is_wf());
    let mut words = MpmData::new(10, &colliders, 64).unwrap();
    words.rigid_particles.needs_block_words = 1;
    assert!(!words.is_wf());
    let mut bodies = MpmData::new(10, &colliders, 64).unwrap();
    bodies.bodies.num_bodies = 2;
    assert!(!bodies.is_wf());
}
