//! Surface samples of polylines: the ids that tie each sample to its
//! segment and collider.

use vstd::prelude::*;

verus! {

/// Shader module of the two-dimensional particles.
pub struct WgParticle {}

/// The segment and the collider that a surface sample belongs to.
#[derive(Clone, Copy, PartialEq, Eq, Debug)]
pub struct GpuSampleIds {
    /// The end points of the segment, as indices into the vertex buffer of
    /// all coupled shapes.
    pub segment: [u32; 2],
    pub collider: u32,
}

/// Where the vertices of a collider's polyline start in the vertex buffer
/// of all coupled shapes, and the place of the collider among the coupled
/// ones.
#[derive(Clone, Copy, PartialEq, Eq, Structural, Debug)]
pub struct SamplingParams {
    pub base_vid: u32,
    pub collider_id: u32,
}

/// The ids of a sample that lies on the segment with vertex indices `seg`.
pub open spec fn sample_ids_spec(seg: [u32; 2], params: SamplingParams) -> GpuSampleIds {
    GpuSampleIds {
        segment: [(params.base_vid + seg[0]) as u32, (params.base_vid + seg[1]) as u32],
        collider: params.collider_id,
    }
}

/// Every vertex index of the polyline, shifted by `base_vid`, fits in 32
/// bits.
pub open spec fn indices_fit(indices: Seq<[u32; 2]>, base_vid: u32) -> bool {
    forall|s: int, k: int|
        0 <= s < indices.len() && 0 <= k < 2 ==> base_vid + (#[trigger] indices[s][k])
            <= u32::MAX
}

/// The ids of `counts[s]` samples for each segment `s` among the first `n`,
/// segment after segment.
pub open spec fn polyline_sample_ids(
    indices: Seq<[u32; 2]>,
    counts: Seq<u32>,
    params: SamplingParams,
    n: int,
) -> Seq<GpuSampleIds>
    decreases n,
{
    if n <= 0 {
        Seq::<GpuSampleIds>::empty()
    } else {
        polyline_sample_ids(indices, counts, params, n - 1) + Seq::new(
            counts[n - 1] as nat,
            |i: int| sample_ids_spec(indices[n - 1], params),
        )
    }
}

/// Appends to `buffers` the ids of the samples of one polyline: segment
/// `s` carries `samples_per_segment[s]` samples, and the samples of a
/// segment follow those of the segment before it.
pub fn sample_polyline(
    indices: &Vec<[u32; 2]>,
    samples_per_segment: &Vec<u32>,
    params: &SamplingParams,
    buffers: &mut Vec<GpuSampleIds>,
)
    requires
        indices_fit(indices@, params.base_vid),
        samples_per_segment@.len() == indices@.len(),
    ensures
        final(buffers)@ == old(buffers)@ + polyline_sample_ids(
            indices@,
            samples_per_segment@,
            *params,
            indices@.len() as int,
        ),
{
    let ghost start = buffers@;
    let mut s: usize = 0;
    assert(buffers@ =~= start + polyline_sample_ids(indices@, samples_per_segment@, *params, 0));
    while s < indices.len()
        invariant
            s <= indices@.len(),
            indices_fit(indices@, params.base_vid),
            samples_per_segment@.len() == indices@.len(),
            buffers@ == start + polyline_sample_ids(
                indices@,
                samples_per_segment@,
                *params,
                s as int,
            ),
        decreases indices@.len() - s,
    {
        let seg_idx: [u32; 2] = indices[s];
        proof {
            assert(params.base_vid + indices@[s as int][0] <= u32::MAX);
            assert(params.base_vid + indices@[s as int][1] <= u32::MAX);
        }
        let sample_id = GpuSampleIds {
            segment: [params.base_vid + seg_idx[0], params.base_vid + seg_idx[1]],
            collider: params.collider_id,
        };
        proof {
            assert(sample_id.segment@ =~= sample_ids_spec(seg_idx, *params).segment@);
        }
        let ghost before = buffers@;
        let count: u32 = samples_per_segment[s];
        let mut i: u32 = 0;
        while i < count
            invariant
                i <= count,
                sample_id == sample_ids_spec(seg_idx, *params),
                buffers@ == before + Seq::new(i as nat, |k: int| sample_ids_spec(seg_idx, *params)),
            decreases count - i,
        {
            buffers.push(sample_id);
            proof {
                assert(buffers@ =~= before + Seq::new(
                    (i + 1) as nat,
                    |k: int| sample_ids_spec(seg_idx, *params),
                ));
            }
            i = i + 1;
        }
        proof {
            assert(buffers@ =~= start + polyline_sample_ids(
                indices@,
                samples_per_segment@,
                *params,
                s + 1,
            ));
        }
        s = s + 1;
    }
}

} // verus!
