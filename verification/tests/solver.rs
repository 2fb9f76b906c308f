use wgsparkl::collision::WgCollide;
use wgsparkl::grid::kernel::WgKernel;
use wgsparkl::models::{WgDruckerPrager, WgLinearElasticity, WgNeoHookeanElasticity};
use wgsparkl::prep_vertex_buffer::{RenderConfig, RenderMode, WgPrepVertexBuffer};
use wgsparkl::queue::{
    BindGroupEntry, Buffer, Invocation, KernelInvocationBuilder, KernelInvocationQueue, Pipeline,
    Workgroups,
};
use wgsparkl::shader::ShaderModule;
use wgsparkl::solver::affinity::{affinities_are_compatible, affinity_bit, sign_bit};
use wgsparkl::solver::body::GpuBodySet;
use wgsparkl::solver::g2p::WgG2P;
use wgsparkl::solver::g2p_cdf::WgG2PCdf;
use wgsparkl::solver::grid_update::WgGridUpdate;
use wgsparkl::solver::grid_update_cdf::WgGridUpdateCdf;
use wgsparkl::solver::p2g::WgP2G;
use wgsparkl::solver::p2g_cdf::WgP2GCdf;
use wgsparkl::solver::params::WgParams;
use wgsparkl::solver::particle::{GpuParticles, GpuRigidParticles};
use wgsparkl::solver::particle2d;
use wgsparkl::solver::particle3d::{
    sample_mesh, sample_trimesh, GpuSampleIds, SamplingJob, SamplingParams, VisitedSegments,
};
use wgsparkl::solver::particle_update::WgParticleUpdate;
use wgsparkl::solver::rigid_impulses::WgRigidImpulses;
use wgsparkl::solver::rigid_particle_update::WgRigidParticleUpdate;

fn groups(inv: &Invocation) -> Vec<(u32, Vec<(u32, Buffer)>)> {
    match inv {
        Invocation::Kernel(k) => k
            .bind_groups
            .iter()
            .map(|g| (g.id, g.entries.iter().map(|e| (e.binding, e.buffer)).collect()))
            .collect(),
        Invocation::ComputePass { .. } => panic!("a kernel was expected"),
    }
}

fn dispatch(inv: &Invocation) -> (Pipeline, Workgroups) {
    match inv {
        Invocation::Kernel(k) => (k.pipeline, k.workgroups),
        Invocation::ComputePass { .. } => panic!("a kernel was expected"),
    }
}

const PER_BLOCK: Workgroups = Workgroups::Indirect(Buffer::GridIndirectNG2pP2gGroups);

#[test]
fn builder_numbers_consecutive_bindings() {
    let mut queue = KernelInvocationQueue::new();
    KernelInvocationBuilder::new(Pipeline::Reset)
        .bind0(vec![Buffer::GridMeta, Buffer::GridNodes])
        .bind(3, vec![Buffer::GridDebug])
        .bind_at(1, vec![BindGroupEntry { binding: 9, buffer: Buffer::GridNodesCdf }])
        .queue(&mut queue, 5);
    assert_eq!(
        groups(&queue.invocations[0]),
        vec![
            (0, vec![(0, Buffer::GridMeta), (1, Buffer::GridNodes)]),
            (3, vec![(0, Buffer::GridDebug)]),
            (1, vec![(9, Buffer::GridNodesCdf)]),
        ]
    );
    assert_eq!(dispatch(&queue.invocations[0]), (Pipeline::Reset, Workgroups::Direct(5)));
    KernelInvocationBuilder::new(Pipeline::G2P).queue_indirect(&mut queue, Buffer::GridDebug);
    assert_eq!(
        dispatch(&queue.invocations[1]),
        (Pipeline::G2P, Workgroups::Indirect(Buffer::GridDebug))
    );
    assert!(groups(&queue.invocations[1]).is_empty());
}

#[test]
fn g2p_bindings() {
    let mut queue = KernelInvocationQueue::new();
    WgG2P {}.queue(&mut queue);
    assert_eq!(dispatch(&queue.invocations[0]), (Pipeline::G2P, PER_BLOCK));
    assert_eq!(
        groups(&queue.invocations[0]),
        vec![
            (
                0,
                vec![
                    (0, Buffer::GridMeta),
                    (1, Buffer::GridHmapEntries),
                    (2, Buffer::GridActiveBlocks),
                    (3, Buffer::GridNodes),
                ]
            ),
            (
                1,
                vec![
                    (0, Buffer::ParticlePositions),
                    (1, Buffer::ParticleDynamics),
                    (2, Buffer::ParticleSortedIds),
                    (3, Buffer::SimulationParams),
                ]
            ),
            (2, vec![(0, Buffer::BodyVels), (1, Buffer::BodyMprops)]),
        ]
    );
}

#[test]
fn g2p_cdf_bindings() {
    let mut queue = KernelInvocationQueue::new();
    WgG2PCdf {}.queue(&mut queue);
    assert_eq!(dispatch(&queue.invocations[0]), (Pipeline::G2PCdf, PER_BLOCK));
    let g = groups(&queue.invocations[0]);
    assert_eq!(g.len(), 2);
    assert_eq!(g[1].1[2], (2, Buffer::ParticleSortedIds));
}

#[test]
fn grid_update_bindings() {
    let mut queue = KernelInvocationQueue::new();
    WgGridUpdate {}.queue(&mut queue);
    assert_eq!(dispatch(&queue.invocations[0]), (Pipeline::GridUpdate, PER_BLOCK));
    assert_eq!(
        groups(&queue.invocations[0]),
        vec![(
            0,
            vec![
                (0, Buffer::GridMeta),
                (2, Buffer::GridActiveBlocks),
                (3, Buffer::GridNodes),
                (4, Buffer::SimulationParams),
            ]
        )]
    );
}

#[test]
fn grid_update_cdf_has_an_empty_second_group() {
    let mut queue = KernelInvocationQueue::new();
    WgGridUpdateCdf {}.queue(&mut queue);
    assert_eq!(dispatch(&queue.invocations[0]), (Pipeline::GridUpdateCdf, PER_BLOCK));
    assert_eq!(
        groups(&queue.invocations[0]),
        vec![
            (
                0,
                vec![(0, Buffer::GridMeta), (2, Buffer::GridActiveBlocks), (3, Buffer::GridNodes)]
            ),
            (1, vec![]),
            (2, vec![(0, Buffer::BodyShapes), (1, Buffer::BodyPoses)]),
        ]
    );
}

#[test]
fn p2g_bindings() {
    let mut queue = KernelInvocationQueue::new();
    WgP2G {}.queue(&mut queue);
    assert_eq!(dispatch(&queue.invocations[0]), (Pipeline::P2G, PER_BLOCK));
    let g = groups(&queue.invocations[0]);
    assert_eq!(g[0].1[4], (9, Buffer::GridNodesCdf));
    assert_eq!(
        g[1].1,
        vec![
            (0, Buffer::ParticlePositions),
            (1, Buffer::ParticleDynamics),
            (2, Buffer::GridNodesLinkedLists),
            (3, Buffer::ParticleNodeLinkedLists),
            (4, Buffer::IncrementalImpulses),
        ]
    );
    assert_eq!(g[2], (2, vec![(0, Buffer::BodyVels), (1, Buffer::BodyMprops)]));
}

#[test]
fn p2g_cdf_is_left_out_without_samples() {
    let mut queue = KernelInvocationQueue::new();
    WgP2GCdf {}.queue(&mut queue, &GpuRigidParticles::new());
    assert_eq!(queue.len(), 0);
    WgP2GCdf {}.queue(&mut queue, &GpuRigidParticles::with_samples(1));
    assert_eq!(queue.len(), 1);
    assert_eq!(dispatch(&queue.invocations[0]), (Pipeline::P2GCdf, PER_BLOCK));
    assert_eq!(
        groups(&queue.invocations[0]),
        vec![
            (
                0,
                vec![
                    (0, Buffer::GridMeta),
                    (1, Buffer::GridHmapEntries),
                    (2, Buffer::GridActiveBlocks),
                    (9, Buffer::GridNodesCdf),
                ]
            ),
            (
                1,
                vec![
                    (0, Buffer::GridNodesRigidLinkedLists),
                    (1, Buffer::RigidNodeLinkedLists),
                    (2, Buffer::RigidSampleIds),
                    (3, Buffer::BodyShapesVertexBuffers),
                ]
            ),
        ]
    );
}

#[test]
fn particle_update_covers_the_particles() {
    let mut queue = KernelInvocationQueue::new();
    WgParticleUpdate {}.queue(&mut queue, &GpuParticles::from_particles(129));
    assert_eq!(
        dispatch(&queue.invocations[0]),
        (Pipeline::ParticleUpdate, Workgroups::Direct(3))
    );
    let g = groups(&queue.invocations[0]);
    assert_eq!(g[0], (0, vec![(0, Buffer::GridMeta)]));
    assert_eq!(g[1].1.len(), 9);
    assert_eq!(g[1].1[4], (4, Buffer::ModelLinearElasticity));
    assert_eq!(g[1].1[8], (8, Buffer::SimulationParams));
}

#[test]
fn rigid_impulses_bindings() {
    let mut queue = KernelInvocationQueue::new();
    WgRigidImpulses {}.queue(&mut queue);
    WgRigidImpulses {}.queue_update_world_mass_properties(&mut queue);
    assert_eq!(
        dispatch(&queue.invocations[0]),
        (Pipeline::RigidImpulsesUpdate, Workgroups::Direct(1))
    );
    assert_eq!(groups(&queue.invocations[0])[0].1.len(), 7);
    assert_eq!(
        dispatch(&queue.invocations[1]),
        (Pipeline::UpdateWorldMassProperties, Workgroups::Direct(1))
    );
    assert_eq!(
        groups(&queue.invocations[1]),
        vec![(
            0,
            vec![
                (1, Buffer::IncrementalImpulses),
                (3, Buffer::BodyLocalMprops),
                (4, Buffer::BodyMprops),
                (5, Buffer::BodyPoses),
            ]
        )]
    );
}

#[test]
fn rigid_particle_update_covers_samples_and_vertices() {
    let mut queue = KernelInvocationQueue::new();
    let bodies = GpuBodySet { num_bodies: 2, num_shape_vertices: 64 };
    assert_eq!(bodies.len(), 2);
    assert!(!bodies.is_empty());
    WgRigidParticleUpdate {}.queue(&mut queue, &bodies, &GpuRigidParticles::with_samples(65));
    assert_eq!(
        dispatch(&queue.invocations[0]),
        (Pipeline::TransformSamplePoints, Workgroups::Direct(2))
    );
    assert_eq!(
        dispatch(&queue.invocations[1]),
        (Pipeline::TransformShapePoints, Workgroups::Direct(1))
    );
    assert_eq!(
        groups(&queue.invocations[1]),
        vec![(
            0,
            vec![
                (0, Buffer::BodyShapesLocalVertexBuffers),
                (1, Buffer::BodyShapesVertexBuffers),
                (3, Buffer::BodyShapesVertexColliderId),
                (4, Buffer::BodyPoses),
            ]
        )]
    );
}

#[test]
fn render_mode_text() {
    assert_eq!(RenderMode::Default.text(), "default");
    assert_eq!(RenderMode::Volume.text(), "volume");
    assert_eq!(RenderMode::Velocity.text(), "velocity");
    assert_eq!(RenderMode::CdfNormals.text(), "cdf (normals)");
    assert_eq!(RenderMode::CdfDistances.text(), "cdf (distances)");
    assert_eq!(RenderMode::CdfSigns.text(), "cdf (signs)");
}

#[test]
fn render_mode_from_u32() {
    assert_eq!(RenderMode::from_u32(0), RenderMode::Default);
    assert_eq!(RenderMode::from_u32(1), RenderMode::Volume);
    assert_eq!(RenderMode::from_u32(2), RenderMode::Velocity);
    assert_eq!(RenderMode::from_u32(3), RenderMode::CdfNormals);
    assert_eq!(RenderMode::from_u32(4), RenderMode::CdfDistances);
    assert_eq!(RenderMode::from_u32(5), RenderMode::CdfSigns);
}

#[test]
fn render_config_new() {
    assert_eq!(RenderConfig::new(RenderMode::Default).mode, 0);
    assert_eq!(RenderConfig::new(RenderMode::CdfSigns).mode, 5);
    assert_eq!(RenderConfig::default(), RenderConfig { mode: 0 });
    for code in 0..6 {
        assert_eq!(RenderConfig::new(RenderMode::from_u32(code)).mode, code);
    }
}

#[test]
fn render_feed_kernels() {
    let particles = GpuParticles::from_particles(100);
    let rigid = GpuRigidParticles::with_samples(64);
    let mut queue = KernelInvocationQueue::new();
    WgPrepVertexBuffer {}.queue(&mut queue, &particles, &rigid, false);
    assert_eq!(queue.len(), 1);
    assert_eq!(
        dispatch(&queue.invocations[0]),
        (Pipeline::PrepVertexBuffer, Workgroups::Direct(2))
    );
    assert_eq!(groups(&queue.invocations[0])[0].1[7], (7, Buffer::RenderConfig));
    WgPrepVertexBuffer {}.queue(&mut queue, &particles, &rigid, true);
    assert_eq!(queue.len(), 3);
    assert_eq!(
        dispatch(&queue.invocations[2]),
        (Pipeline::PrepVertexBufferRigidParticles, Workgroups::Direct(1))
    );
    assert_eq!(
        groups(&queue.invocations[2]),
        vec![(0, vec![(0, Buffer::VertexBufferRigidParticles), (1, Buffer::RigidSamplePoints)])]
    );
}

#[test]
fn mesh_jobs_sample_a_shared_edge_once() {
    let indices = vec![[0, 1, 2], [2, 1, 3]];
    let jobs = sample_mesh(&indices);
    assert_eq!(
        jobs,
        vec![
            SamplingJob::Triangle { triangle_id: 0 },
            SamplingJob::Edge { triangle_id: 0, a: 0, b: 1 },
            SamplingJob::Edge { triangle_id: 0, a: 1, b: 2 },
            SamplingJob::Edge { triangle_id: 0, a: 2, b: 0 },
            SamplingJob::Triangle { triangle_id: 1 },
            SamplingJob::Edge { triangle_id: 1, a: 1, b: 3 },
            SamplingJob::Edge { triangle_id: 1, a: 3, b: 2 },
        ]
    );
    assert!(sample_mesh(&Vec::new()).is_empty());
}

#[test]
fn mesh_jobs_of_a_degenerate_triangle() {
    let jobs = sample_mesh(&vec![[5, 5, 5]]);
    assert_eq!(
        jobs,
        vec![
            SamplingJob::Triangle { triangle_id: 0 },
            SamplingJob::Edge { triangle_id: 0, a: 5, b: 5 },
        ]
    );
}

#[test]
fn segments_are_undirected() {
    let mut visited = VisitedSegments::new();
    assert!(visited.seg_needs_sampling(3, 9));
    assert!(!visited.seg_needs_sampling(9, 3));
    assert!(!visited.seg_needs_sampling(3, 9));
    assert!(visited.seg_needs_sampling(9, 4));
    assert!(visited.seg_needs_sampling(u32::MAX, 0));
    assert!(!visited.seg_needs_sampling(0, u32::MAX));
    assert!(visited.seg_needs_sampling(0, 0));
}

#[test]
fn trimesh_sample_ids() {
    let indices = vec![[0, 1, 2], [2, 1, 3]];
    let params = SamplingParams { base_vid: 100, collider_id: 4 };
    let mut buffers = vec![GpuSampleIds { triangle: [9, 9, 9], collider: 0 }];
    sample_trimesh(&indices, &vec![1, 1, 0], &params, &mut buffers);
    assert_eq!(
        buffers,
        vec![
            GpuSampleIds { triangle: [9, 9, 9], collider: 0 },
            GpuSampleIds { triangle: [102, 101, 103], collider: 4 },
            GpuSampleIds { triangle: [102, 101, 103], collider: 4 },
            GpuSampleIds { triangle: [100, 101, 102], collider: 4 },
        ]
    );
}

#[test]
fn polyline_sample_ids() {
    let indices = vec![[0, 1], [1, 2], [2, 0]];
    let params = particle2d::SamplingParams { base_vid: 10, collider_id: 2 };
    let mut buffers = Vec::new();
    particle2d::sample_polyline(&indices, &vec![2, 0, 1], &params, &mut buffers);
    assert_eq!(
        buffers,
        vec![
            particle2d::GpuSampleIds { segment: [10, 11], collider: 2 },
            particle2d::GpuSampleIds { segment: [10, 11], collider: 2 },
            particle2d::GpuSampleIds { segment: [12, 10], collider: 2 },
        ]
    );
}

#[test]
fn affinity_bits() {
    let tag = 0x0004_0005;
    assert!(affinity_bit(0, tag));
    assert!(!affinity_bit(1, tag));
    assert!(affinity_bit(2, tag));
    assert!(!sign_bit(0, tag));
    assert!(sign_bit(2, tag));
    assert!(!affinity_bit(15, tag));
    assert!(sign_bit(15, 0x8000_0000));
}

#[test]
fn tags_are_compatible_on_the_same_side() {
    // Body 0 is near both, on the same side.
    assert!(affinities_are_compatible(0x0001_0001, 0x0001_0001));
    // Body 0 is near both, on opposite sides.
    assert!(!affinities_are_compatible(0x0001_0001, 0x0000_0001));
    // Body 0 is near one of them only.
    assert!(affinities_are_compatible(0x0001_0001, 0x0000_0002));
    // No body is near.
    assert!(affinities_are_compatible(0, 0xffff_0000));
    // Body 15 decides.
    assert!(!affinities_are_compatible(0x8000_8000, 0x0000_8000));
    assert!(!affinities_are_compatible(0x8000_8001, 0x8001_8001));
    assert!(affinities_are_compatible(0x8001_8001, 0x8001_8003));
}

#[test]
fn a_node_next_to_a_wall_takes_one_side() {
    let left = 0x0000_0001;
    let right = 0x0001_0001;
    for node in [0x0000_0001u32, 0x0001_0001] {
        assert!(
            !(affinities_are_compatible(left, node) && affinities_are_compatible(right, node))
        );
    }
}

#[test]
fn shader_imports_come_first() {
    assert_eq!(ShaderModule::Grid.dependencies(), vec![ShaderModule::Params]);
    assert_eq!(
        ShaderModule::Sort.dependencies(),
        vec![ShaderModule::Particle, ShaderModule::Grid]
    );
    assert!(ShaderModule::Kernel.dependencies().is_empty());
    assert_eq!(ShaderModule::ParticleUpdate.dependencies().len(), 8);
    assert_eq!(WgKernel {}.module(), ShaderModule::Kernel);
    assert_eq!(WgCollide {}.module(), ShaderModule::Collide);
    assert_eq!(WgParams {}.module(), ShaderModule::Params);
    assert_eq!(WgLinearElasticity {}.module(), ShaderModule::LinearElasticity);
    assert_eq!(WgNeoHookeanElasticity {}.module(), ShaderModule::NeoHookeanElasticity);
    assert_eq!(WgDruckerPrager {}.module(), ShaderModule::DruckerPrager);
}
