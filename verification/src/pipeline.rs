//! One sub-step of the simulation, as an ordered chain of compute passes.

use crate::grid::grid::{sort_invocations, GpuGrid, WgGrid, MAX_GRID_CAPACITY};
use crate::grid::prefix_sum::{
    lemma_reserve_again, lemma_reserved_is_function, reserved, reserved_num_stages,
    reserved_stages, PrefixSumWorkspace, WgPrefixSum,
};
use crate::grid::sort::{sort_rigid_particles_invocations, WgSort};
use crate::queue::{ComputePass, InvocationView, KernelInvocationQueue};
use crate::solver::body::GpuBodySet;
use crate::solver::g2p::{g2p_invocation, WgG2P};
use crate::solver::g2p_cdf::{g2p_cdf_invocation, WgG2PCdf};
use crate::solver::grid_update::{grid_update_invocation, WgGridUpdate};
use crate::solver::grid_update_cdf::{grid_update_cdf_invocation, WgGridUpdateCdf};
use crate::solver::p2g::{p2g_invocation, WgP2G};
use crate::solver::p2g_cdf::{p2g_cdf_invocations, WgP2GCdf};
use crate::solver::particle::{GpuParticles, GpuRigidParticles};
use crate::solver::particle_update::{particle_update_invocation, WgParticleUpdate};
use crate::solver::rigid_impulses::{
    rigid_impulses_invocation, update_world_mass_properties_invocation, GpuImpulses,
    WgRigidImpulses, MAX_BODY_COUNT,
};
use crate::solver::rigid_particle_update::{
    rigid_particle_update_invocations, WgRigidParticleUpdate,
};
use vstd::prelude::*;

verus! {

/// How a rigid body takes part in the simulation.
#[derive(Clone, Copy, PartialEq, Eq, Structural, Debug)]
pub enum BodyCoupling {
    /// The body acts on the particles and is not acted upon.
    OneWay,
    /// The body acts on the particles and receives their impulses.
    TwoWays,
}

/// A collider coupled with the particles, and the body that carries it.
#[derive(Clone, Copy, PartialEq, Eq, Structural, Debug)]
pub struct BodyCouplingEntry {
    /// Index of the body in the host's body set.
    pub body: u32,
    /// Index of the collider in the host's collider set.
    pub collider: u32,
    pub mode: BodyCoupling,
}

/// What the solver reads of one collider of the host.
#[derive(Clone, Copy, PartialEq, Eq, Structural, Debug)]
pub struct ColliderDesc {
    /// Index of the body that carries the collider, if any.
    pub parent: Option<u32>,
    /// Number of surface samples that the boundary of the collider's shape
    /// yields at the sampling step of the simulation.
    pub num_samples: u32,
    /// Number of vertices of the collider's shape.
    pub num_shape_vertices: u32,
}

/// Why the state of a simulation cannot be built.
#[derive(Clone, Copy, PartialEq, Eq, Structural, Debug)]
pub enum MpmError {
    /// More bodies are coupled than there are impulse slots.
    TooManyCoupledBodies,
    /// A coupling entry names a collider that the collider set lacks.
    UnknownCollider,
    /// The block capacity is above the largest supported one.
    InvalidGridCapacity,
    /// The particle count does not fit a 32-bit buffer length.
    TooManyParticles,
    /// The counts of samples or shape vertices do not fit a 32-bit buffer
    /// length.
    TooManySamples,
}

/// The two-way coupling of every collider that a body carries, in the order
/// of the colliders.
pub open spec fn default_coupling(colliders: Seq<ColliderDesc>) -> Seq<BodyCouplingEntry>
    decreases colliders.len(),
{
    if colliders.len() == 0 {
        Seq::<BodyCouplingEntry>::empty()
    } else {
        let front = default_coupling(colliders.drop_last());
        match colliders.last().parent {
            Some(body) => front.push(
                BodyCouplingEntry {
                    body,
                    collider: (colliders.len() - 1) as u32,
                    mode: BodyCoupling::TwoWays,
                },
            ),
            None => front,
        }
    }
}

/// Every entry names a collider of the set.
pub open spec fn coupling_known(colliders: Seq<ColliderDesc>, coupling: Seq<BodyCouplingEntry>)
    -> bool {
    forall|i: int| 0 <= i < coupling.len() ==> (#[trigger] coupling[i]).collider < colliders.len()
}

/// Number of samples of the first `n` coupled colliders.
pub open spec fn coupled_samples(
    colliders: Seq<ColliderDesc>,
    coupling: Seq<BodyCouplingEntry>,
    n: int,
) -> int
    decreases n,
{
    if n <= 0 {
        0
    } else {
        coupled_samples(colliders, coupling, n - 1) + colliders[coupling[n
            - 1].collider as int].num_samples
    }
}

/// Number of shape vertices of the first `n` coupled colliders.
pub open spec fn coupled_shape_vertices(
    colliders: Seq<ColliderDesc>,
    coupling: Seq<BodyCouplingEntry>,
    n: int,
) -> int
    decreases n,
{
    if n <= 0 {
        0
    } else {
        coupled_shape_vertices(colliders, coupling, n - 1) + colliders[coupling[n
            - 1].collider as int].num_shape_vertices
    }
}

/// The first reason, if any, for which no state can be built.
pub open spec fn data_error(
    num_particles: usize,
    colliders: Seq<ColliderDesc>,
    coupling: Seq<BodyCouplingEntry>,
    grid_capacity: u32,
) -> Option<MpmError> {
    if coupling.len() > MAX_BODY_COUNT {
        Some(MpmError::TooManyCoupledBodies)
    } else if !coupling_known(colliders, coupling) {
        Some(MpmError::UnknownCollider)
    } else if grid_capacity > MAX_GRID_CAPACITY {
        Some(MpmError::InvalidGridCapacity)
    } else if num_particles > u32::MAX {
        Some(MpmError::TooManyParticles)
    } else if coupled_samples(colliders, coupling, coupling.len() as int) > u32::MAX
        || coupled_shape_vertices(colliders, coupling, coupling.len() as int) > u32::MAX {
        Some(MpmError::TooManySamples)
    } else {
        None
    }
}

/// The state of one simulation: the sizes of its buffers, the workspace of
/// the prefix sum and the coupled colliders.
pub struct MpmData {
    pub grid: GpuGrid,
    pub particles: GpuParticles,
    pub rigid_particles: GpuRigidParticles,
    pub bodies: GpuBodySet,
    pub impulses: GpuImpulses,
    /// Length of the staging buffer for the body poses.
    pub poses_staging_len: u32,
    pub prefix_sum: PrefixSumWorkspace,
    pub coupling: Vec<BodyCouplingEntry>,
}

impl MpmData {
    /// The grid and the workspace are laid out, there is one body and one
    /// staged pose per coupled collider, and no more coupled bodies than
    /// impulse slots.
    pub open spec fn wf(&self) -> bool {
        &&& self.grid.wf()
        &&& self.rigid_particles.wf()
        &&& self.prefix_sum.wf()
        &&& self.coupling@.len() <= MAX_BODY_COUNT
        &&& self.coupling@.len() <= self.impulses.incremental_impulses_len
        &&& self.bodies.num_bodies == self.coupling@.len()
        &&& self.poses_staging_len == self.bodies.num_bodies
    }

    /// The state of a simulation in which every collider that a body
    /// carries is coupled both ways.
    pub fn new(num_particles: usize, colliders: &Vec<ColliderDesc>, grid_capacity: u32) -> (r:
        Result<MpmData, MpmError>)
        requires
            colliders@.len() <= u32::MAX,
        ensures
            built(r, num_particles, colliders@, default_coupling(colliders@), grid_capacity),
    {
        let mut coupling: Vec<BodyCouplingEntry> = Vec::new();
        let mut i: usize = 0;
        while i < colliders.len()
            invariant
                i <= colliders@.len(),
                colliders@.len() <= u32::MAX,
                coupling@ == default_coupling(colliders@.take(i as int)),
            decreases colliders@.len() - i,
        {
            proof {
                assert(colliders@.take(i + 1).drop_last() =~= colliders@.take(i as int));
            }
            match colliders[i].parent {
                Some(body) => {
                    coupling.push(
                        BodyCouplingEntry {
                            body,
                            collider: i as u32,
                            mode: BodyCoupling::TwoWays,
                        },
                    );
                },
                None => {},
            }
            i = i + 1;
        }
        assert(colliders@.take(colliders@.len() as int) =~= colliders@);
        MpmData::with_select_coupling(num_particles, colliders, coupling, grid_capacity)
    }

    /// The state of a simulation with the given coupled colliders.
    ///
    /// Fails where the coupling holds more entries than there are impulse
    /// slots, names a collider that `colliders` lacks, where the block
    /// capacity is too large, or where a count does not fit a 32-bit buffer
    /// length.
    pub fn with_select_coupling(
        num_particles: usize,
        colliders: &Vec<ColliderDesc>,
        coupling: Vec<BodyCouplingEntry>,
        grid_capacity: u32,
    ) -> (r: Result<MpmData, MpmError>)
        ensures
            built(r, num_particles, colliders@, coupling@, grid_capacity),
    {
        if coupling.len() > MAX_BODY_COUNT {
            return Err(MpmError::TooManyCoupledBodies);
        }
        let mut k: usize = 0;
        while k < coupling.len()
            invariant
                k <= coupling@.len(),
                coupling@.len() <= MAX_BODY_COUNT,
                forall|i: int| 0 <= i < k ==> (#[trigger] coupling@[i]).collider < colliders@.len(),
            decreases coupling@.len() - k,
        {
            if coupling[k].collider as usize >= colliders.len() {
                assert(!coupling_known(colliders@, coupling@));
                return Err(MpmError::UnknownCollider);
            }
            k = k + 1;
        }
        assert(coupling_known(colliders@, coupling@));
        if grid_capacity > MAX_GRID_CAPACITY {
            return Err(MpmError::InvalidGridCapacity);
        }
        if num_particles > u32::MAX as usize {
            return Err(MpmError::TooManyParticles);
        }
        // At most sixteen counts of 32 bits each: the sums fit 64 bits.
        let mut num_samples: u64 = 0;
        let mut num_shape_vertices: u64 = 0;
        let mut i: usize = 0;
        while i < coupling.len()
            invariant
                i <= coupling@.len(),
                coupling@.len() <= MAX_BODY_COUNT,
                coupling_known(colliders@, coupling@),
                num_samples == coupled_samples(colliders@, coupling@, i as int),
                num_shape_vertices == coupled_shape_vertices(colliders@, coupling@, i as int),
                num_samples <= i * 0xffff_ffff,
                num_shape_vertices <= i * 0xffff_ffff,
            decreases coupling@.len() - i,
        {
            let collider = &colliders[coupling[i].collider as usize];
            num_samples = num_samples + collider.num_samples as u64;
            num_shape_vertices = num_shape_vertices + collider.num_shape_vertices as u64;
            i = i + 1;
        }
        if num_samples > u32::MAX as u64 || num_shape_vertices > u32::MAX as u64 {
            return Err(MpmError::TooManySamples);
        }
        let bodies = GpuBodySet {
            num_bodies: coupling.len() as u32,
            num_shape_vertices: num_shape_vertices as u32,
        };
        let particles = GpuParticles::from_particles(num_particles);
        let rigid_particles = GpuRigidParticles::with_samples(num_samples as usize);
        let grid = GpuGrid::with_capacity(grid_capacity);
        let prefix_sum = PrefixSumWorkspace::with_capacity(grid_capacity);
        let impulses = GpuImpulses::new();
        let poses_staging_len: u32 = bodies.len();
        Ok(
            MpmData {
                grid,
                particles,
                rigid_particles,
                bodies,
                impulses,
                poses_staging_len,
                prefix_sum,
                coupling,
            },
        )
    }

    /// Whether the state is consistent. It is as it comes from [`new`] and
    /// [`with_select_coupling`], and stays so as long as its fields are
    /// only changed by the functions of this library.
    ///
    /// [`new`]: MpmData::new
    /// [`with_select_coupling`]: MpmData::with_select_coupling
    pub fn is_wf(&self) -> (b: bool)
        ensures
            b == self.wf(),
    {
        self.grid.is_wf() && self.rigid_particles.is_wf() && self.prefix_sum.is_wf()
            && self.coupling.len() <= MAX_BODY_COUNT && self.coupling.len()
            <= self.impulses.incremental_impulses_len && self.bodies.num_bodies as usize
            == self.coupling.len() && self.poses_staging_len == self.bodies.num_bodies
    }

    /// The coupled colliders.
    pub fn coupling(&self) -> (c: &Vec<BodyCouplingEntry>)
        ensures
            c@ == self.coupling@,
    {
        &self.coupling
    }
}

/// What building the state of a simulation returns: an error exactly where
/// [`data_error`] names one, else a well-formed state of the sizes asked for.
pub open spec fn built(
    r: Result<MpmData, MpmError>,
    num_particles: usize,
    colliders: Seq<ColliderDesc>,
    coupling: Seq<BodyCouplingEntry>,
    grid_capacity: u32,
) -> bool {
    match data_error(num_particles, colliders, coupling, grid_capacity) {
        Some(e) => r == Err::<MpmData, MpmError>(e),
        None => r is Ok && {
            let data = r->Ok_0;
            &&& data.wf()
            &&& data.coupling@ == coupling
            &&& data.impulses == (GpuImpulses {
                incremental_impulses_len: MAX_BODY_COUNT,
                total_impulses_len: MAX_BODY_COUNT,
                total_impulses_staging_len: MAX_BODY_COUNT,
            })
            &&& data.particles.num_particles == num_particles
            &&& data.rigid_particles.num_samples == coupled_samples(
                colliders,
                coupling,
                coupling.len() as int,
            )
            &&& data.bodies.num_shape_vertices == coupled_shape_vertices(
                colliders,
                coupling,
                coupling.len() as int,
            )
            &&& crate::arith::is_next_power_of_two(
                grid_capacity as int,
                data.grid.cpu_meta.capacity as int,
            )
            &&& data.prefix_sum.capacities() == crate::grid::prefix_sum::stage_chain(
                crate::arith::div_ceil_spec(grid_capacity as int, 256),
            )
            &&& data.prefix_sum.num_stages == data.prefix_sum.stages@.len()
        },
    }
}

/// The start of a compute pass.
pub open spec fn marker(pass: ComputePass, add_timestamps: bool) -> InvocationView {
    InvocationView::ComputePass { pass, add_timestamps }
}

/// A compute pass: its start, then its kernels.
pub open spec fn pass(p: ComputePass, add_timestamps: bool, kernels: Seq<InvocationView>) -> Seq<
    InvocationView,
> {
    seq![marker(p, add_timestamps)] + kernels
}

/// The sizes that decide what a sub-step queues.
pub struct StepSizes {
    pub grid: GpuGrid,
    pub num_particles: u32,
    /// Number of rigid surface samples.
    pub num_samples: u32,
    pub num_shape_vertices: u32,
    /// Lengths of the auxiliary buffers of the prefix sum.
    pub stages: Seq<u32>,
    /// Number of those buffers that the scan uses.
    pub num_stages: int,
}

/// The kernels that a sub-step queues in pass `p`.
///
/// Without rigid surface samples, nothing is queued in the first, the
/// fourth and the last pass, and the grid sort does not sort samples.
pub open spec fn step_kernels(sizes: StepSizes, p: ComputePass) -> Seq<InvocationView> {
    match p {
        ComputePass::UpdateRigidParticles => if sizes.num_samples == 0 {
            Seq::<InvocationView>::empty()
        } else {
            seq![update_world_mass_properties_invocation()] + rigid_particle_update_invocations(
                sizes.num_samples,
                sizes.num_shape_vertices,
            )
        },
        ComputePass::GridSort => sort_invocations(
            sizes.grid,
            sizes.num_particles,
            sizes.num_samples,
            sizes.stages,
            sizes.num_stages,
        ) + sort_rigid_particles_invocations(sizes.num_samples),
        ComputePass::GridUpdateCdf => seq![grid_update_cdf_invocation()],
        ComputePass::P2GCdf => p2g_cdf_invocations(sizes.num_samples),
        ComputePass::G2PCdf => seq![g2p_cdf_invocation()],
        ComputePass::P2G => seq![p2g_invocation()],
        ComputePass::GridUpdate => seq![grid_update_invocation()],
        ComputePass::G2P => seq![g2p_invocation()],
        ComputePass::ParticlesUpdate => seq![particle_update_invocation(sizes.num_particles)],
        ComputePass::IntegrateBodies => if sizes.num_samples == 0 {
            Seq::<InvocationView>::empty()
        } else {
            seq![rigid_impulses_invocation()]
        },
    }
}

/// Pass `p` of a sub-step.
pub open spec fn step_pass(sizes: StepSizes, p: ComputePass, add_timestamps: bool) -> Seq<
    InvocationView,
> {
    pass(p, add_timestamps, step_kernels(sizes, p))
}

/// Everything that one sub-step queues: its ten passes, in order.
pub open spec fn step_invocations(sizes: StepSizes, add_timestamps: bool) -> Seq<InvocationView> {
    step_pass(sizes, ComputePass::UpdateRigidParticles, add_timestamps) + step_pass(
        sizes,
        ComputePass::GridSort,
        add_timestamps,
    ) + step_pass(sizes, ComputePass::GridUpdateCdf, add_timestamps) + step_pass(
        sizes,
        ComputePass::P2GCdf,
        add_timestamps,
    ) + step_pass(sizes, ComputePass::G2PCdf, add_timestamps) + step_pass(
        sizes,
        ComputePass::P2G,
        add_timestamps,
    ) + step_pass(sizes, ComputePass::GridUpdate, add_timestamps) + step_pass(
        sizes,
        ComputePass::G2P,
        add_timestamps,
    ) + step_pass(sizes, ComputePass::ParticlesUpdate, add_timestamps) + step_pass(
        sizes,
        ComputePass::IntegrateBodies,
        add_timestamps,
    )
}

/// The compute kernels of the solver.
pub struct MpmPipeline {
    pub grid: WgGrid,
    pub prefix_sum: WgPrefixSum,
    pub sort: WgSort,
    pub p2g: WgP2G,
    pub p2g_cdf: WgP2GCdf,
    pub grid_update_cdf: WgGridUpdateCdf,
    pub grid_update: WgGridUpdate,
    pub particles_update: WgParticleUpdate,
    pub g2p: WgG2P,
    pub g2p_cdf: WgG2PCdf,
    pub rigid_particles_update: WgRigidParticleUpdate,
    pub impulses: WgRigidImpulses,
}

impl MpmPipeline {
    /// The pipeline with all its kernels.
    pub fn new() -> MpmPipeline {
        MpmPipeline {
            grid: WgGrid {  },
            prefix_sum: WgPrefixSum {  },
            sort: WgSort {  },
            p2g: WgP2G {  },
            p2g_cdf: WgP2GCdf {  },
            grid_update_cdf: WgGridUpdateCdf {  },
            grid_update: WgGridUpdate {  },
            particles_update: WgParticleUpdate {  },
            g2p: WgG2P {  },
            g2p_cdf: WgG2PCdf {  },
            rigid_particles_update: WgRigidParticleUpdate {  },
            impulses: WgRigidImpulses {  },
        }
    }

    /// Queues the passes that come before the grid sort.
    fn queue_before_sort(
        &self,
        data: &MpmData,
        queue: &mut KernelInvocationQueue,
        add_timestamps: bool,
        Ghost(sizes): Ghost<StepSizes>,
    )
        requires
            sizes.num_samples == data.rigid_particles.num_samples,
            sizes.num_shape_vertices == data.bodies.num_shape_vertices,
        ensures
            final(queue)@ == old(queue)@ + step_pass(
                sizes,
                ComputePass::UpdateRigidParticles,
                add_timestamps,
            ),
    {
        queue.compute_pass(ComputePass::UpdateRigidParticles, add_timestamps);
        if !data.rigid_particles.is_empty() {
            self.impulses.queue_update_world_mass_properties(queue);
            self.rigid_particles_update.queue(queue, &data.bodies, &data.rigid_particles);
        }
        assert(queue@ =~= old(queue)@ + step_pass(
            sizes,
            ComputePass::UpdateRigidParticles,
            add_timestamps,
        ));
    }

    /// Queues the grid sort.
    fn queue_grid_sort(
        &self,
        data: &mut MpmData,
        queue: &mut KernelInvocationQueue,
        add_timestamps: bool,
    )
        requires
            old(data).wf(),
        ensures
            final(data).wf(),
            unchanged_but_workspace(*old(data), *final(data)),
            reserved(old(data).prefix_sum, old(data).grid.scan_values_len, final(data).prefix_sum),
            final(queue)@ == old(queue)@ + step_pass(
                step_sizes(*final(data)),
                ComputePass::GridSort,
                add_timestamps,
            ),
    {
        queue.compute_pass(ComputePass::GridSort, add_timestamps);
        self.grid.queue_sort(
            &data.particles,
            &data.rigid_particles,
            &data.grid,
            &mut data.prefix_sum,
            &self.sort,
            &self.prefix_sum,
            queue,
        );
        self.sort.queue_sort_rigid_particles(&data.rigid_particles, &data.grid, queue);
        assert(queue@ =~= old(queue)@ + step_pass(
            step_sizes(*data),
            ComputePass::GridSort,
            add_timestamps,
        ));
    }

    /// Queues the three passes of the compatibility field.
    fn queue_cdf(
        &self,
        data: &MpmData,
        queue: &mut KernelInvocationQueue,
        add_timestamps: bool,
        Ghost(sizes): Ghost<StepSizes>,
    )
        requires
            sizes.num_samples == data.rigid_particles.num_samples,
        ensures
            final(queue)@ == old(queue)@ + step_pass(
                sizes,
                ComputePass::GridUpdateCdf,
                add_timestamps,
            ) + step_pass(sizes, ComputePass::P2GCdf, add_timestamps) + step_pass(
                sizes,
                ComputePass::G2PCdf,
                add_timestamps,
            ),
    {
        queue.compute_pass(ComputePass::GridUpdateCdf, add_timestamps);
        self.grid_update_cdf.queue(queue);

        queue.compute_pass(ComputePass::P2GCdf, add_timestamps);
        self.p2g_cdf.queue(queue, &data.rigid_particles);

        queue.compute_pass(ComputePass::G2PCdf, add_timestamps);
        self.g2p_cdf.queue(queue);
        assert(queue@ =~= old(queue)@ + step_pass(
            sizes,
            ComputePass::GridUpdateCdf,
            add_timestamps,
        ) + step_pass(sizes, ComputePass::P2GCdf, add_timestamps) + step_pass(
            sizes,
            ComputePass::G2PCdf,
            add_timestamps,
        ));
    }

    /// Queues the transfers, the grid update and the particle update.
    fn queue_transfer(
        &self,
        data: &MpmData,
        queue: &mut KernelInvocationQueue,
        add_timestamps: bool,
        Ghost(sizes): Ghost<StepSizes>,
    )
        requires
            sizes.num_particles == data.particles.num_particles,
        ensures
            final(queue)@ == old(queue)@ + step_pass(sizes, ComputePass::P2G, add_timestamps)
                + step_pass(sizes, ComputePass::GridUpdate, add_timestamps) + step_pass(
                sizes,
                ComputePass::G2P,
                add_timestamps,
            ) + step_pass(sizes, ComputePass::ParticlesUpdate, add_timestamps),
    {
        queue.compute_pass(ComputePass::P2G, add_timestamps);
        self.p2g.queue(queue);

        queue.compute_pass(ComputePass::GridUpdate, add_timestamps);
        self.grid_update.queue(queue);

        queue.compute_pass(ComputePass::G2P, add_timestamps);
        self.g2p.queue(queue);

        queue.compute_pass(ComputePass::ParticlesUpdate, add_timestamps);
        self.particles_update.queue(queue, &data.particles);
        assert(queue@ =~= old(queue)@ + step_pass(sizes, ComputePass::P2G, add_timestamps)
            + step_pass(sizes, ComputePass::GridUpdate, add_timestamps) + step_pass(
            sizes,
            ComputePass::G2P,
            add_timestamps,
        ) + step_pass(sizes, ComputePass::ParticlesUpdate, add_timestamps));
    }

    /// Queues the last pass.
    fn queue_integrate_bodies(
        &self,
        data: &MpmData,
        queue: &mut KernelInvocationQueue,
        add_timestamps: bool,
        Ghost(sizes): Ghost<StepSizes>,
    )
        requires
            sizes.num_samples == data.rigid_particles.num_samples,
        ensures
            final(queue)@ == old(queue)@ + step_pass(
                sizes,
                ComputePass::IntegrateBodies,
                add_timestamps,
            ),
    {
        queue.compute_pass(ComputePass::IntegrateBodies, add_timestamps);
        if !data.rigid_particles.is_empty() {
            self.impulses.queue(queue);
        }
        assert(queue@ =~= old(queue)@ + step_pass(
            sizes,
            ComputePass::IntegrateBodies,
            add_timestamps,
        ));
    }

    /// Queues `num_substeps` sub-steps, one after the other. Every sub-step
    /// queues the same work: the workspace fits the grid from the first
    /// one on.
    pub fn queue_substeps(
        &self,
        data: &mut MpmData,
        queue: &mut KernelInvocationQueue,
        num_substeps: u32,
        add_timestamps: bool,
    )
        requires
            old(data).wf(),
        ensures
            final(data).wf(),
            unchanged_but_workspace(*old(data), *final(data)),
            num_substeps == 0 ==> final(data).prefix_sum == old(data).prefix_sum,
            num_substeps > 0 ==> reserved(
                old(data).prefix_sum,
                old(data).grid.scan_values_len,
                final(data).prefix_sum,
            ),
            final(queue)@ == old(queue)@ + repeated(
                step_invocations(step_sizes(*final(data)), add_timestamps),
                num_substeps as nat,
            ),
    {
        let mut i: u32 = 0;
        proof {
            assert(queue@ =~= old(queue)@ + repeated(
                step_invocations(step_sizes(*data), add_timestamps),
                0,
            ));
        }
        while i < num_substeps
            invariant
                i <= num_substeps,
                old(data).wf(),
                data.wf(),
                unchanged_but_workspace(*old(data), *data),
                i == 0 ==> data.prefix_sum == old(data).prefix_sum,
                i > 0 ==> reserved(
                    old(data).prefix_sum,
                    old(data).grid.scan_values_len,
                    data.prefix_sum,
                ),
                queue@ == old(queue)@ + repeated(
                    step_invocations(step_sizes(*data), add_timestamps),
                    i as nat,
                ),
            decreases num_substeps - i,
        {
            let ghost before = *data;
            let ghost queued = queue@;
            self.queue_step(data, queue, add_timestamps);
            proof {
                if i > 0 {
                    lemma_reserve_again(
                        old(data).prefix_sum,
                        old(data).grid.scan_values_len,
                        before.prefix_sum,
                        data.prefix_sum,
                    );
                    assert(step_sizes(*data) == step_sizes(before));
                } else {
                    assert(repeated(step_invocations(step_sizes(before), add_timestamps), 0)
                        =~= repeated(step_invocations(step_sizes(*data), add_timestamps), 0));
                }
                let step = step_invocations(step_sizes(*data), add_timestamps);
                assert(queue@ =~= old(queue)@ + repeated(step, (i + 1) as nat)) by {
                    assert(repeated(step, (i + 1) as nat) == repeated(step, i as nat) + step);
                }
            }
            i = i + 1;
        }
    }

    /// Queues one sub-step: ten compute passes in a fixed order.
    ///
    /// Only the workspace of the prefix sum changes in `data`: it is made to
    /// fit the scan values of the grid. Where there is no rigid surface
    /// sample, the first and the last pass stay empty, and no kernel is
    /// queued that sorts or deposits samples.
    pub fn queue_step(
        &self,
        data: &mut MpmData,
        queue: &mut KernelInvocationQueue,
        add_timestamps: bool,
    )
        requires
            old(data).wf(),
        ensures
            final(data).wf(),
            unchanged_but_workspace(*old(data), *final(data)),
            reserved(old(data).prefix_sum, old(data).grid.scan_values_len, final(data).prefix_sum),
            final(queue)@ == old(queue)@ + step_invocations(
                step_sizes(*final(data)),
                add_timestamps,
            ),
    {
        let ghost sizes = StepSizes {
            grid: data.grid,
            num_particles: data.particles.num_particles,
            num_samples: data.rigid_particles.num_samples,
            num_shape_vertices: data.bodies.num_shape_vertices,
            stages: reserved_stages(data.prefix_sum, data.grid.scan_values_len),
            num_stages: reserved_num_stages(data.grid.scan_values_len),
        };
        self.queue_before_sort(data, queue, add_timestamps, Ghost(sizes));
        self.queue_grid_sort(data, queue, add_timestamps);
        proof {
            lemma_reserved_is_function(
                old(data).prefix_sum,
                old(data).grid.scan_values_len,
                data.prefix_sum,
            );
            assert(sizes == step_sizes(*data));
        }
        self.queue_cdf(data, queue, add_timestamps, Ghost(sizes));
        self.queue_transfer(data, queue, add_timestamps, Ghost(sizes));
        self.queue_integrate_bodies(data, queue, add_timestamps, Ghost(sizes));
        assert(queue@ =~= old(queue)@ + step_invocations(sizes, add_timestamps));
    }
}

/// `n` times the elements of `s`.
pub open spec fn repeated(s: Seq<InvocationView>, n: nat) -> Seq<InvocationView>
    decreases n,
{
    if n == 0 {
        Seq::<InvocationView>::empty()
    } else {
        repeated(s, (n - 1) as nat) + s
    }
}

/// The sizes on which a sub-step of `data` depends.
pub open spec fn step_sizes(data: MpmData) -> StepSizes {
    StepSizes {
        grid: data.grid,
        num_particles: data.particles.num_particles,
        num_samples: data.rigid_particles.num_samples,
        num_shape_vertices: data.bodies.num_shape_vertices,
        stages: data.prefix_sum.capacities(),
        num_stages: data.prefix_sum.num_stages as int,
    }
}

/// `after` differs from `before` at most in the workspace of the prefix sum.
pub open spec fn unchanged_but_workspace(before: MpmData, after: MpmData) -> bool {
    &&& after.grid == before.grid
    &&& after.particles == before.particles
    &&& after.rigid_particles == before.rigid_particles
    &&& after.bodies == before.bodies
    &&& after.impulses == before.impulses
    &&& after.poses_staging_len == before.poses_staging_len
    &&& after.coupling == before.coupling
}

} // verus!
