//! A recorded chain of compute work.
//!
//! Each solver pass appends kernel invocations to a [`KernelInvocationQueue`].
//! An invocation names the compute pipeline, the buffers bound to it, group
//! by group, and the number of work groups, given directly or read by the
//! device from an indirect-argument buffer. Nothing here touches a device:
//! the queue is plain data that a backend replays in order.

use vstd::prelude::*;

verus! {

/// The compute pipelines of the solver, one per kernel entry point.
#[derive(Clone, Copy, PartialEq, Eq, Structural, Debug)]
pub enum Pipeline {
    ResetHmap,
    Reset,
    InitIndirectWorkgroups,
    TouchParticleBlocks,
    TouchRigidParticleBlocks,
    MarkRigidParticlesNeedingBlock,
    UpdateBlockParticleCount,
    CopyParticlesLenToScanValue,
    CopyScanValuesToFirstParticles,
    FinalizeParticlesSort,
    SortRigidParticles,
    PrefixSum,
    AddDataGrp,
    P2G,
    P2GCdf,
    G2P,
    G2PCdf,
    GridUpdate,
    GridUpdateCdf,
    ParticleUpdate,
    RigidImpulsesUpdate,
    UpdateWorldMassProperties,
    TransformSamplePoints,
    TransformShapePoints,
    PrepVertexBuffer,
    PrepVertexBufferRigidParticles,
}

/// The device buffers of one simulation, by role.
#[derive(Clone, Copy, PartialEq, Eq, Structural, Debug)]
pub enum Buffer {
    GridMeta,
    GridHmapEntries,
    GridActiveBlocks,
    GridNodes,
    GridNodesCdf,
    GridScanValues,
    GridNodesLinkedLists,
    GridNodesRigidLinkedLists,
    GridIndirectNBlocksGroups,
    GridIndirectNG2pP2gGroups,
    GridDebug,
    ParticlePositions,
    ParticleDynamics,
    ParticleVelocities,
    ParticleVolumes,
    ParticleAffines,
    ParticleCdf,
    ParticleSortedIds,
    ParticleNodeLinkedLists,
    RigidLocalSamplePoints,
    RigidSamplePoints,
    RigidParticleNeedsBlock,
    RigidNodeLinkedLists,
    RigidSampleIds,
    SimulationParams,
    IncrementalImpulses,
    BodyVels,
    BodyLocalMprops,
    BodyMprops,
    BodyPoses,
    BodyShapes,
    BodyShapesLocalVertexBuffers,
    BodyShapesVertexBuffers,
    BodyShapesVertexColliderId,
    ModelLinearElasticity,
    ModelDruckerPragerPlasticity,
    ModelDruckerPragerPlasticState,
    ModelPhases,
    /// Auxiliary totals of the prefix sum, by level.
    PrefixSumStage(usize),
    RenderConfig,
    VertexBuffer,
    VertexBufferRigidParticles,
}

/// The compute passes of one sub-step, in the order in which they run.
#[derive(Clone, Copy, PartialEq, Eq, Structural, Debug)]
pub enum ComputePass {
    UpdateRigidParticles,
    GridSort,
    GridUpdateCdf,
    P2GCdf,
    G2PCdf,
    P2G,
    GridUpdate,
    G2P,
    ParticlesUpdate,
    IntegrateBodies,
}

impl ComputePass {
    /// Position of the pass within a sub-step, from zero.
    pub open spec fn rank(self) -> int {
        match self {
            ComputePass::UpdateRigidParticles => 0,
            ComputePass::GridSort => 1,
            ComputePass::GridUpdateCdf => 2,
            ComputePass::P2GCdf => 3,
            ComputePass::G2PCdf => 4,
            ComputePass::P2G => 5,
            ComputePass::GridUpdate => 6,
            ComputePass::G2P => 7,
            ComputePass::ParticlesUpdate => 8,
            ComputePass::IntegrateBodies => 9,
        }
    }

    /// The label under which the pass is recorded.
    pub open spec fn label_spec(self) -> Seq<char> {
        match self {
            ComputePass::UpdateRigidParticles => "update rigid particles"@,
            ComputePass::GridSort => "grid sort"@,
            ComputePass::GridUpdateCdf => "grid_update_cdf"@,
            ComputePass::P2GCdf => "p2g_cdf"@,
            ComputePass::G2PCdf => "g2p_cdf"@,
            ComputePass::P2G => "p2g"@,
            ComputePass::GridUpdate => "grid_update"@,
            ComputePass::G2P => "g2p"@,
            ComputePass::ParticlesUpdate => "particles_update"@,
            ComputePass::IntegrateBodies => "integrate_bodies"@,
        }
    }

    /// The label under which the pass is recorded.
    pub fn label(&self) -> (s: &'static str)
        ensures
            s@ == self.label_spec(),
    {
        match self {
            ComputePass::UpdateRigidParticles => "update rigid particles",
            ComputePass::GridSort => "grid sort",
            ComputePass::GridUpdateCdf => "grid_update_cdf",
            ComputePass::P2GCdf => "p2g_cdf",
            ComputePass::G2PCdf => "g2p_cdf",
            ComputePass::P2G => "p2g",
            ComputePass::GridUpdate => "grid_update",
            ComputePass::G2P => "g2p",
            ComputePass::ParticlesUpdate => "particles_update",
            ComputePass::IntegrateBodies => "integrate_bodies",
        }
    }
}

/// One buffer bound at one storage binding of a bind group.
#[derive(Clone, Copy, PartialEq, Eq, Structural, Debug)]
pub struct BindGroupEntry {
    pub binding: u32,
    pub buffer: Buffer,
}

/// The entries that bind `inputs[i]` at binding `i`.
pub open spec fn consecutive_entries(inputs: Seq<Buffer>) -> Seq<BindGroupEntry> {
    Seq::new(inputs.len(), |i: int| BindGroupEntry { binding: i as u32, buffer: inputs[i] })
}

/// A bind group: the buffers bound under one group id.
pub struct BindGroup {
    pub id: u32,
    pub entries: Vec<BindGroupEntry>,
}

/// Mathematical value of a [`BindGroup`].
#[verifier::ext_equal]
pub struct BindGroupView {
    pub id: u32,
    pub entries: Seq<BindGroupEntry>,
}

impl View for BindGroup {
    type V = BindGroupView;

    open spec fn view(&self) -> BindGroupView {
        BindGroupView { id: self.id, entries: self.entries@ }
    }
}

/// How many work groups a dispatch launches.
#[derive(Clone, Copy, PartialEq, Eq, Structural, Debug)]
pub enum Workgroups {
    /// A number of work groups known when the dispatch is recorded.
    Direct(u32),
    /// A number of work groups that the device reads from a buffer of
    /// indirect-dispatch arguments when the dispatch runs.
    Indirect(Buffer),
}

/// A kernel invocation waiting in a queue.
pub struct KernelInvocation {
    pub pipeline: Pipeline,
    pub bind_groups: Vec<BindGroup>,
    pub workgroups: Workgroups,
}

/// Mathematical value of a [`KernelInvocation`].
#[verifier::ext_equal]
pub struct KernelInvocationView {
    pub pipeline: Pipeline,
    pub bind_groups: Seq<BindGroupView>,
    pub workgroups: Workgroups,
}

impl View for KernelInvocation {
    type V = KernelInvocationView;

    open spec fn view(&self) -> KernelInvocationView {
        KernelInvocationView {
            pipeline: self.pipeline,
            bind_groups: self.bind_groups@.map_values(|g: BindGroup| g@),
            workgroups: self.workgroups,
        }
    }
}

/// An element of a queue: a kernel invocation, or the start of a compute pass.
pub enum Invocation {
    Kernel(KernelInvocation),
    ComputePass { pass: ComputePass, add_timestamps: bool },
}

/// Mathematical value of an [`Invocation`].
#[verifier::ext_equal]
pub enum InvocationView {
    Kernel(KernelInvocationView),
    ComputePass { pass: ComputePass, add_timestamps: bool },
}

impl View for Invocation {
    type V = InvocationView;

    open spec fn view(&self) -> InvocationView {
        match *self {
            Invocation::Kernel(k) => InvocationView::Kernel(k@),
            Invocation::ComputePass { pass, add_timestamps } => InvocationView::ComputePass {
                pass,
                add_timestamps,
            },
        }
    }
}

/// A chain of compute work waiting to be encoded.
pub struct KernelInvocationQueue {
    pub invocations: Vec<Invocation>,
}

impl View for KernelInvocationQueue {
    type V = Seq<InvocationView>;

    open spec fn view(&self) -> Seq<InvocationView> {
        self.invocations@.map_values(|i: Invocation| i@)
    }
}

impl KernelInvocationQueue {
    /// An empty queue.
    pub fn new() -> (q: KernelInvocationQueue)
        ensures
            q@ == Seq::<InvocationView>::empty(),
    {
        let q = KernelInvocationQueue { invocations: Vec::new() };
        assert(q@ =~= Seq::<InvocationView>::empty());
        q
    }

    /// Number of queued elements.
    pub fn len(&self) -> (n: usize)
        ensures
            n == self@.len(),
    {
        self.invocations.len()
    }

    /// Appends a kernel invocation.
    pub fn push(&mut self, invocation: KernelInvocation)
        ensures
            final(self)@ == old(self)@.push(InvocationView::Kernel(invocation@)),
    {
        self.invocations.push(Invocation::Kernel(invocation));
        assert(self@ =~= old(self)@.push(InvocationView::Kernel(invocation@)));
    }

    /// Starts a compute pass: the kernel invocations queued after it run in
    /// that pass.
    pub fn compute_pass(&mut self, pass: ComputePass, add_timestamps: bool)
        ensures
            final(self)@ == old(self)@.push(InvocationView::ComputePass { pass, add_timestamps }),
    {
        self.invocations.push(Invocation::ComputePass { pass, add_timestamps });
        assert(self@ =~= old(self)@.push(InvocationView::ComputePass { pass, add_timestamps }));
    }

    /// Removes everything from the queue.
    pub fn clear(&mut self)
        ensures
            final(self)@ == Seq::<InvocationView>::empty(),
    {
        self.invocations.clear();
        assert(self@ =~= Seq::<InvocationView>::empty());
    }
}

/// Collects the bind groups of one kernel invocation, then queues it.
pub struct KernelInvocationBuilder {
    pub pipeline: Pipeline,
    pub bind_groups: Vec<BindGroup>,
}

impl View for KernelInvocationBuilder {
    type V = Seq<BindGroupView>;

    open spec fn view(&self) -> Seq<BindGroupView> {
        self.bind_groups@.map_values(|g: BindGroup| g@)
    }
}

impl KernelInvocationBuilder {
    /// Starts an invocation of `pipeline` with no bind group.
    pub fn new(pipeline: Pipeline) -> (b: KernelInvocationBuilder)
        ensures
            b.pipeline == pipeline,
            b@ == Seq::<BindGroupView>::empty(),
    {
        let b = KernelInvocationBuilder { pipeline, bind_groups: Vec::new() };
        assert(b@ =~= Seq::<BindGroupView>::empty());
        b
    }

    /// Binds `inputs[i]` at binding `i` of bind group 0.
    pub fn bind0(self, inputs: Vec<Buffer>) -> (b: KernelInvocationBuilder)
        requires
            inputs@.len() <= u32::MAX,
        ensures
            b.pipeline == self.pipeline,
            b@ == self@.push(BindGroupView { id: 0, entries: consecutive_entries(inputs@) }),
    {
        self.bind(0, inputs)
    }

    /// Binds `inputs[i]` at binding `i` of bind group `bind_group_id`.
    pub fn bind(self, bind_group_id: u32, inputs: Vec<Buffer>) -> (b: KernelInvocationBuilder)
        requires
            inputs@.len() <= u32::MAX,
        ensures
            b.pipeline == self.pipeline,
            b@ == self@.push(
                BindGroupView { id: bind_group_id, entries: consecutive_entries(inputs@) },
            ),
    {
        let mut entries: Vec<BindGroupEntry> = Vec::new();
        let mut i: usize = 0;
        while i < inputs.len()
            invariant
                i <= inputs@.len(),
                inputs@.len() <= u32::MAX,
                entries@.len() == i,
                forall|j: int|
                    0 <= j < i ==> #[trigger] entries@[j] == (BindGroupEntry {
                        binding: j as u32,
                        buffer: inputs@[j],
                    }),
            decreases inputs@.len() - i,
        {
            entries.push(BindGroupEntry { binding: i as u32, buffer: inputs[i] });
            i = i + 1;
        }
        assert(entries@ =~= consecutive_entries(inputs@));
        self.bind_at(bind_group_id, entries)
    }

    /// Binds `inputs[i].buffer` at binding `inputs[i].binding` of bind group
    /// `bind_group_id`.
    pub fn bind_at(self, bind_group_id: u32, inputs: Vec<BindGroupEntry>) -> (b:
        KernelInvocationBuilder)
        ensures
            b.pipeline == self.pipeline,
            b@ == self@.push(BindGroupView { id: bind_group_id, entries: inputs@ }),
    {
        let mut b = self;
        let group = BindGroup { id: bind_group_id, entries: inputs };
        b.bind_groups.push(group);
        assert(b@ =~= self@.push(BindGroupView { id: bind_group_id, entries: inputs@ }));
        b
    }

    /// Queues the invocation with a number of work groups given directly.
    pub fn queue(self, queue: &mut KernelInvocationQueue, workgroups: u32)
        ensures
            final(queue)@ == old(queue)@.push(
                InvocationView::Kernel(
                    KernelInvocationView {
                        pipeline: self.pipeline,
                        bind_groups: self@,
                        workgroups: Workgroups::Direct(workgroups),
                    },
                ),
            ),
    {
        queue.push(
            KernelInvocation {
                pipeline: self.pipeline,
                bind_groups: self.bind_groups,
                workgroups: Workgroups::Direct(workgroups),
            },
        );
    }

    /// Queues the invocation with a number of work groups that the device
    /// reads from `workgroups` when the dispatch runs.
    pub fn queue_indirect(self, queue: &mut KernelInvocationQueue, workgroups: Buffer)
        ensures
            final(queue)@ == old(queue)@.push(
                InvocationView::Kernel(
                    KernelInvocationView {
                        pipeline: self.pipeline,
                        bind_groups: self@,
                        workgroups: Workgroups::Indirect(workgroups),
                    },
                ),
            ),
    {
        queue.push(
            KernelInvocation {
                pipeline: self.pipeline,
                bind_groups: self.bind_groups,
                workgroups: Workgroups::Indirect(workgroups),
            },
        );
    }
}

/// A kernel entry with a direct work-group count.
pub open spec fn direct(pipeline: Pipeline, bind_groups: Seq<BindGroupView>, workgroups: u32)
    -> InvocationView {
    InvocationView::Kernel(
        KernelInvocationView { pipeline, bind_groups, workgroups: Workgroups::Direct(workgroups) },
    )
}

/// A kernel entry whose work-group count the device reads from `workgroups`.
pub open spec fn indirect(pipeline: Pipeline, bind_groups: Seq<BindGroupView>, workgroups: Buffer)
    -> InvocationView {
    InvocationView::Kernel(
        KernelInvocationView {
            pipeline,
            bind_groups,
            workgroups: Workgroups::Indirect(workgroups),
        },
    )
}

/// A bind group with explicit bindings.
pub open spec fn group_at(id: u32, entries: Seq<BindGroupEntry>) -> BindGroupView {
    BindGroupView { id, entries }
}

/// A bind group with bindings `0, 1, 2, ..`.
pub open spec fn group(id: u32, inputs: Seq<Buffer>) -> BindGroupView {
    BindGroupView { id, entries: consecutive_entries(inputs) }
}

/// One explicit binding.
pub open spec fn at(buffer: Buffer, binding: u32) -> BindGroupEntry {
    BindGroupEntry { binding, buffer }
}

} // verus!
