//! Surface samples of triangle meshes: which triangles and edges are
//! sampled, and the ids that tie each sample to its triangle and collider.

use std::collections::HashSet;
use vstd::prelude::*;

verus! {

broadcast use vstd::std_specs::hash::group_hash_axioms;

/// Shader module of the three-dimensional particles.
pub struct WgParticle {}

/// The triangle and the collider that a surface sample belongs to.
#[derive(Clone, Copy, PartialEq, Eq, Debug)]
pub struct GpuSampleIds {
    /// The vertices of the triangle, as indices into the vertex buffer of
    /// all coupled shapes.
    pub triangle: [u32; 3],
    pub collider: u32,
}

/// Where the vertices of a collider's mesh start in the vertex buffer of
/// all coupled shapes, and the place of the collider among the coupled ones.
#[derive(Clone, Copy, PartialEq, Eq, Structural, Debug)]
pub struct SamplingParams {
    pub base_vid: u32,
    pub collider_id: u32,
}

/// The ids of a sample that lies on the triangle with vertex indices `tri`.
pub open spec fn sample_ids_spec(tri: [u32; 3], params: SamplingParams) -> GpuSampleIds {
    GpuSampleIds {
        triangle: [
            (params.base_vid + tri[0]) as u32,
            (params.base_vid + tri[1]) as u32,
            (params.base_vid + tri[2]) as u32,
        ],
        collider: params.collider_id,
    }
}

/// Every vertex index of the mesh, shifted by `base_vid`, fits in 32 bits.
pub open spec fn indices_fit(indices: Seq<[u32; 3]>, base_vid: u32) -> bool {
    forall|t: int, k: int|
        0 <= t < indices.len() && 0 <= k < 3 ==> base_vid + (#[trigger] indices[t][k])
            <= u32::MAX
}

/// Appends to `buffers` the ids of the samples of one mesh: sample `i`
/// lies on the triangle `triangle_ids[i]`.
pub fn sample_trimesh(
    indices: &Vec<[u32; 3]>,
    triangle_ids: &Vec<u32>,
    params: &SamplingParams,
    buffers: &mut Vec<GpuSampleIds>,
)
    requires
        indices_fit(indices@, params.base_vid),
        forall|i: int| 0 <= i < triangle_ids@.len() ==> (#[trigger] triangle_ids@[i]) < indices@.len(),
    ensures
        final(buffers)@ == old(buffers)@ + Seq::new(
            triangle_ids@.len(),
            |i: int| sample_ids_spec(indices@[triangle_ids@[i] as int], *params),
        ),
{
    let ghost start = buffers@;
    let mut i: usize = 0;
    while i < triangle_ids.len()
        invariant
            i <= triangle_ids@.len(),
            indices_fit(indices@, params.base_vid),
            forall|i: int|
                0 <= i < triangle_ids@.len() ==> (#[trigger] triangle_ids@[i]) < indices@.len(),
            buffers@ == start + Seq::new(
                i as nat,
                |i: int| sample_ids_spec(indices@[triangle_ids@[i] as int], *params),
            ),
        decreases triangle_ids@.len() - i,
    {
        let t: usize = triangle_ids[i] as usize;
        let tri_idx: [u32; 3] = indices[t];
        proof {
            assert(params.base_vid + indices@[t as int][0] <= u32::MAX);
            assert(params.base_vid + indices@[t as int][1] <= u32::MAX);
            assert(params.base_vid + indices@[t as int][2] <= u32::MAX);
        }
        let sample_id = GpuSampleIds {
            triangle: [
                params.base_vid + tri_idx[0],
                params.base_vid + tri_idx[1],
                params.base_vid + tri_idx[2],
            ],
            collider: params.collider_id,
        };
        proof {
            assert(sample_id.triangle@ =~= sample_ids_spec(tri_idx, *params).triangle@);
        }
        buffers.push(sample_id);
        proof {
            assert(buffers@ =~= start + Seq::new(
                (i + 1) as nat,
                |i: int| sample_ids_spec(indices@[triangle_ids@[i] as int], *params),
            ));
        }
        i = i + 1;
    }
}

/// One call of the samplers: the inside of a triangle, or one of its edges.
#[derive(Clone, Copy, PartialEq, Eq, Structural, Debug)]
pub enum SamplingJob {
    /// Sample the inside of the triangle `triangle_id`.
    Triangle { triangle_id: u32 },
    /// Sample the edge from vertex `a` to vertex `b`, on behalf of the
    /// triangle `triangle_id`.
    Edge { triangle_id: u32, a: u32, b: u32 },
}

/// The key of the undirected edge between the vertices `a` and `b`.
pub open spec fn edge_key(a: u32, b: u32) -> u64 {
    if a >= b {
        (a as int * 0x1_0000_0000 + b as int) as u64
    } else {
        (b as int * 0x1_0000_0000 + a as int) as u64
    }
}

/// Two edges have the same key exactly if they join the same two vertices.
pub proof fn lemma_edge_key_injective(a: u32, b: u32, c: u32, d: u32)
    ensures
        edge_key(a, b) == edge_key(c, d) <==> (a == c && b == d) || (a == d && b == c),
{
}

/// First vertex of edge `e` of a triangle: edges run from vertex 0 to 1,
/// from 1 to 2 and from 2 to 0.
pub open spec fn edge_start(tri: [u32; 3], e: int) -> u32 {
    tri[e]
}

/// Second vertex of edge `e` of a triangle.
pub open spec fn edge_end(tri: [u32; 3], e: int) -> u32 {
    tri[(e + 1) % 3]
}

/// The key of the `n`-th edge of the mesh, counting three edges to a
/// triangle.
pub open spec fn mesh_edge_key(indices: Seq<[u32; 3]>, n: int) -> u64 {
    edge_key(edge_start(indices[n / 3], n % 3), edge_end(indices[n / 3], n % 3))
}

/// The keys of the first `n` edges of the mesh.
pub open spec fn visited_edges(indices: Seq<[u32; 3]>, n: int) -> Set<u64> {
    Set::new(|k: u64| exists|m: int| 0 <= m < n && #[trigger] mesh_edge_key(indices, m) == k)
}

/// No edge before the `n`-th joins the same two vertices.
pub open spec fn first_visit(indices: Seq<[u32; 3]>, n: int) -> bool {
    forall|m: int| 0 <= m < n ==> #[trigger] mesh_edge_key(indices, m) != mesh_edge_key(indices, n)
}

/// Every edge is sampled once: among the edges up to the `n`-th, exactly
/// one joins the same two vertices and is met for the first time.
pub proof fn lemma_edge_sampled_once(indices: Seq<[u32; 3]>, n: int) -> (m: int)
    requires
        n >= 0,
    ensures
        0 <= m <= n,
        mesh_edge_key(indices, m) == mesh_edge_key(indices, n),
        first_visit(indices, m),
        forall|k: int|
            0 <= k <= n && #[trigger] mesh_edge_key(indices, k) == mesh_edge_key(indices, n)
                && first_visit(indices, k) ==> k == m,
    decreases n,
{
    if first_visit(indices, n) {
        n
    } else {
        let earlier = choose|k: int|
            0 <= k < n && mesh_edge_key(indices, k) == mesh_edge_key(indices, n);
        let m = lemma_edge_sampled_once(indices, earlier);
        assert forall|k: int|
            0 <= k <= n && #[trigger] mesh_edge_key(indices, k) == mesh_edge_key(indices, n)
                && first_visit(indices, k) implies k == m by {
            if k != m {
                if k < m {
                    assert(mesh_edge_key(indices, k) != mesh_edge_key(indices, m));
                } else {
                    assert(mesh_edge_key(indices, m) != mesh_edge_key(indices, k));
                }
            }
        }
        m
    }
}

/// The job of the `n`-th edge, if the edge is met for the first time.
pub open spec fn edge_jobs(indices: Seq<[u32; 3]>, n: int) -> Seq<SamplingJob> {
    if first_visit(indices, n) {
        seq![
            SamplingJob::Edge {
                triangle_id: (n / 3) as u32,
                a: edge_start(indices[n / 3], n % 3),
                b: edge_end(indices[n / 3], n % 3),
            },
        ]
    } else {
        Seq::<SamplingJob>::empty()
    }
}

/// The jobs of the first `t` triangles: for each triangle its inside, then
/// those of its three edges that no earlier job has sampled.
pub open spec fn mesh_jobs(indices: Seq<[u32; 3]>, t: int) -> Seq<SamplingJob>
    decreases t,
{
    if t <= 0 {
        Seq::<SamplingJob>::empty()
    } else {
        mesh_jobs(indices, t - 1) + seq![SamplingJob::Triangle { triangle_id: (t - 1) as u32 }]
            + edge_jobs(indices, 3 * (t - 1)) + edge_jobs(indices, 3 * (t - 1) + 1) + edge_jobs(
            indices,
            3 * (t - 1) + 2,
        )
    }
}

/// The edges that were sampled so far.
pub struct VisitedSegments {
    pub segments: HashSet<u64>,
}

impl VisitedSegments {
    /// No edge was sampled yet.
    pub fn new() -> (v: VisitedSegments)
        ensures
            v.segments@ == Set::<u64>::empty(),
    {
        VisitedSegments { segments: HashSet::new() }
    }

    /// Whether the edge between the vertices `ia` and `ib` is met for the
    /// first time. The edge counts as sampled from then on.
    pub fn seg_needs_sampling(&mut self, ia: u32, ib: u32) -> (needed: bool)
        ensures
            needed == !old(self).segments@.contains(edge_key(ia, ib)),
            final(self).segments@ == old(self).segments@.insert(edge_key(ia, ib)),
    {
        let hi: u32 = if ib > ia {
            ib
        } else {
            ia
        };
        let lo: u32 = if ib > ia {
            ia
        } else {
            ib
        };
        let key: u64 = hi as u64 * 0x1_0000_0000 + lo as u64;
        self.segments.insert(key)
    }
}

/// The calls of the samplers that cover a triangle mesh, in order: every
/// triangle's inside, and every edge once, with the first triangle that
/// has it.
pub fn sample_mesh(indices: &Vec<[u32; 3]>) -> (jobs: Vec<SamplingJob>)
    requires
        indices@.len() <= u32::MAX,
    ensures
        jobs@ == mesh_jobs(indices@, indices@.len() as int),
{
    let mut jobs: Vec<SamplingJob> = Vec::new();
    let mut visited_segs = VisitedSegments::new();
    let mut tri_id: usize = 0;
    assert(visited_segs.segments@ =~= visited_edges(indices@, 0));
    while tri_id < indices.len()
        invariant
            tri_id <= indices@.len(),
            indices@.len() <= u32::MAX,
            jobs@ == mesh_jobs(indices@, tri_id as int),
            visited_segs.segments@ == visited_edges(indices@, 3 * tri_id),
        decreases indices@.len() - tri_id,
    {
        let idx: [u32; 3] = indices[tri_id];
        let ghost before = jobs@;
        jobs.push(SamplingJob::Triangle { triangle_id: tri_id as u32 });

        let mut e: usize = 0;
        while e < 3
            invariant
                e <= 3,
                tri_id < indices@.len(),
                indices@.len() <= u32::MAX,
                idx == indices@[tri_id as int],
                visited_segs.segments@ == visited_edges(indices@, 3 * tri_id + e),
                jobs@ == before + seq![SamplingJob::Triangle { triangle_id: tri_id as u32 }]
                    + edges_through(indices@, 3 * tri_id, e as int),
            decreases 3 - e,
        {
            let n: Ghost<int> = Ghost(3 * tri_id + e);
            let a: u32 = idx[e];
            let b: u32 = idx[(e + 1) % 3];
            proof {
                assert(n@ / 3 == tri_id && n@ % 3 == e);
                assert(edge_key(a, b) == mesh_edge_key(indices@, n@));
                lemma_visited_step(indices@, n@);
            }
            if visited_segs.seg_needs_sampling(a, b) {
                jobs.push(SamplingJob::Edge { triangle_id: tri_id as u32, a, b });
            }
            proof {
                assert(jobs@ =~= before + seq![SamplingJob::Triangle { triangle_id: tri_id as u32 }]
                    + edges_through(indices@, 3 * tri_id, e + 1));
            }
            e = e + 1;
        }
        proof {
            let first = 3 * tri_id as int;
            assert(edges_through(indices@, first, 0) =~= Seq::<SamplingJob>::empty());
            assert(edges_through(indices@, first, 1) =~= edge_jobs(indices@, first));
            assert(edges_through(indices@, first, 2) =~= edge_jobs(indices@, first) + edge_jobs(
                indices@,
                first + 1,
            ));
            assert(edges_through(indices@, first, 3) =~= edge_jobs(indices@, first) + edge_jobs(
                indices@,
                first + 1,
            ) + edge_jobs(indices@, first + 2));
            assert(jobs@ =~= mesh_jobs(indices@, tri_id + 1));
        }
        tri_id = tri_id + 1;
    }
    jobs
}

/// The jobs of the edges `first .. first + count`.
pub open spec fn edges_through(indices: Seq<[u32; 3]>, first: int, count: int) -> Seq<SamplingJob>
    decreases count,
{
    if count <= 0 {
        Seq::<SamplingJob>::empty()
    } else {
        edges_through(indices, first, count - 1) + edge_jobs(indices, first + count - 1)
    }
}

/// Meeting the `n`-th edge adds its key to the visited ones, and the edge
/// is new exactly if its key was not among them.
pub proof fn lemma_visited_step(indices: Seq<[u32; 3]>, n: int)
    requires
        n >= 0,
    ensures
        visited_edges(indices, n + 1) == visited_edges(indices, n).insert(
            mesh_edge_key(indices, n),
        ),
        first_visit(indices, n) <==> !visited_edges(indices, n).contains(mesh_edge_key(indices, n)),
{
    let k = mesh_edge_key(indices, n);
    assert forall|x: u64| visited_edges(indices, n + 1).contains(x) <==> visited_edges(
        indices,
        n,
    ).insert(k).contains(x) by {
        if visited_edges(indices, n + 1).contains(x) {
            let m = choose|m: int| 0 <= m < n + 1 && #[trigger] mesh_edge_key(indices, m) == x;
            if m < n {
                assert(visited_edges(indices, n).contains(x));
            }
        }
        if visited_edges(indices, n).insert(k).contains(x) {
            if x == k {
                assert(mesh_edge_key(indices, n) == x);
            } else {
                let m = choose|m: int| 0 <= m < n && #[trigger] mesh_edge_key(indices, m) == x;
                assert(0 <= m < n + 1);
            }
        }
    }
    assert(visited_edges(indices, n + 1) =~= visited_edges(indices, n).insert(k));
    if !first_visit(indices, n) {
        let m = choose|m: int| 0 <= m < n && mesh_edge_key(indices, m) == mesh_edge_key(indices, n);
        assert(visited_edges(indices, n).contains(k));
    }
}

} // verus!
