//! The side tags of the compatibility field.
//!
//! A tag holds two bits for each body that can be coupled: bit `i` says
//! that the body `i` is near, and bit `SIGN_BITS_SHIFT + i` says on which
//! side of its boundary the tagged node or particle lies. A particle
//! exchanges mass and momentum with a node only if the two lie on the same
//! side of every body that is near both. The width of the tag is what
//! bounds the number of coupled bodies.

use crate::solver::rigid_impulses::MAX_BODY_COUNT;
use vstd::prelude::*;

verus! {

/// The bits of a tag that say which bodies are near.
pub const AFFINITY_BITS_MASK: u32 = 0x0000_ffff;

/// The place of the first side bit of a tag.
pub const SIGN_BITS_SHIFT: u32 = 16;

/// A tag has one near bit and one side bit for each body that can be
/// coupled, and no bit to spare: the number of coupled bodies is bounded by
/// the width of the tag.
pub proof fn lemma_tag_layout()
    ensures
        SIGN_BITS_SHIFT == MAX_BODY_COUNT,
        2 * MAX_BODY_COUNT == u32::BITS,
        AFFINITY_BITS_MASK == (1u32 << SIGN_BITS_SHIFT) - 1,
{
    assert((1u32 << 16u32) - 1 == 0xffff) by (bit_vector);
}

/// The body `i` is near, according to the tag.
pub open spec fn affinity_bit_spec(i: u32, affinity: u32) -> bool {
    affinity & (1u32 << i) != 0
}

/// The side of the body `i` that the tag names.
pub open spec fn sign_bit_spec(i: u32, affinity: u32) -> bool {
    (affinity >> SIGN_BITS_SHIFT) & (1u32 << i) != 0
}

/// The two tags name the same side of every body that is near both.
pub open spec fn compatible(affinity1: u32, affinity2: u32) -> bool {
    forall|i: u32|
        i < MAX_BODY_COUNT && affinity_bit_spec(i, affinity1) && affinity_bit_spec(i, affinity2)
            ==> sign_bit_spec(i, affinity1) == sign_bit_spec(i, affinity2)
}

/// Whether the body `i` is near, according to the tag.
pub fn affinity_bit(i: u32, affinity: u32) -> (near: bool)
    requires
        i < MAX_BODY_COUNT,
    ensures
        near == affinity_bit_spec(i, affinity),
{
    affinity & (1u32 << i) != 0
}

/// The side of the body `i` that the tag names.
pub fn sign_bit(i: u32, affinity: u32) -> (side: bool)
    requires
        i < MAX_BODY_COUNT,
    ensures
        side == sign_bit_spec(i, affinity),
{
    (affinity >> SIGN_BITS_SHIFT) & (1u32 << i) != 0
}

/// Whether a particle and a node with these tags exchange mass and
/// momentum: whether the tags name the same side of every body that is
/// near both.
pub fn affinities_are_compatible(affinity1: u32, affinity2: u32) -> (ok: bool)
    ensures
        ok == compatible(affinity1, affinity2),
{
    let affinities_in_common: u32 = affinity1 & affinity2 & AFFINITY_BITS_MASK;
    let signs1: u32 = (affinity1 >> SIGN_BITS_SHIFT) & affinities_in_common;
    let signs2: u32 = (affinity2 >> SIGN_BITS_SHIFT) & affinities_in_common;
    proof {
        if signs1 == signs2 {
            assert forall|i: u32|
                i < MAX_BODY_COUNT && affinity_bit_spec(i, affinity1) && affinity_bit_spec(
                    i,
                    affinity2,
                ) implies sign_bit_spec(i, affinity1) == sign_bit_spec(i, affinity2) by {
                lemma_common_signs_agree(affinity1, affinity2, i);
            }
        } else {
            let i = lemma_differing_sign(affinity1, affinity2);
            assert(!(sign_bit_spec(i, affinity1) == sign_bit_spec(i, affinity2)));
        }
    }
    signs1 == signs2
}

/// Where the signs of the common bodies agree as words, they agree for
/// each common body.
proof fn lemma_common_signs_agree(a: u32, b: u32, i: u32)
    requires
        i < MAX_BODY_COUNT,
        (a >> 16) & (a & b & 0xffff) == (b >> 16) & (a & b & 0xffff),
        a & (1u32 << i) != 0,
        b & (1u32 << i) != 0,
    ensures
        ((a >> 16) & (1u32 << i) != 0) == ((b >> 16) & (1u32 << i) != 0),
{
    assert(((a >> 16) & (1u32 << i) != 0) == ((b >> 16) & (1u32 << i) != 0)) by (bit_vector)
        requires
            i < 16,
            (a >> 16) & (a & b & 0xffff) == (b >> 16) & (a & b & 0xffff),
            a & (1u32 << i) != 0,
            b & (1u32 << i) != 0,
    ;
}

/// Where the signs of the common bodies differ as words, they differ for
/// some common body.
proof fn lemma_differing_sign(a: u32, b: u32) -> (i: u32)
    requires
        (a >> 16) & (a & b & 0xffff) != (b >> 16) & (a & b & 0xffff),
    ensures
        i < MAX_BODY_COUNT,
        a & (1u32 << i) != 0,
        b & (1u32 << i) != 0,
        ((a >> 16) & (1u32 << i) != 0) != ((b >> 16) & (1u32 << i) != 0),
{
    let x: u32 = ((a >> 16) & (a & b & 0xffff)) ^ ((b >> 16) & (a & b & 0xffff));
    assert(x != 0 && x & 0xffff_0000 == 0) by (bit_vector)
        requires
            x == ((a >> 16) & (a & b & 0xffff)) ^ ((b >> 16) & (a & b & 0xffff)),
            (a >> 16) & (a & b & 0xffff) != (b >> 16) & (a & b & 0xffff),
    ;
    let i = lemma_some_bit_set(x);
    assert(a & (1u32 << i) != 0 && b & (1u32 << i) != 0 && (((a >> 16) & (1u32 << i) != 0) != ((b
        >> 16) & (1u32 << i) != 0))) by (bit_vector)
        requires
            i < 16,
            x == ((a >> 16) & (a & b & 0xffff)) ^ ((b >> 16) & (a & b & 0xffff)),
            x & (1u32 << i) != 0,
    ;
    i
}

/// A non-zero word within the low sixteen bits has one of them set.
proof fn lemma_some_bit_set(x: u32) -> (i: u32)
    requires
        x != 0,
        x & 0xffff_0000 == 0,
    ensures
        i < MAX_BODY_COUNT,
        x & (1u32 << i) != 0,
{
    assert(x & 1 != 0 || x & 2 != 0 || x & 4 != 0 || x & 8 != 0 || x & 16 != 0 || x & 32 != 0 || x
        & 64 != 0 || x & 128 != 0 || x & 256 != 0 || x & 512 != 0 || x & 1024 != 0 || x & 2048 != 0
        || x & 4096 != 0 || x & 8192 != 0 || x & 16384 != 0 || x & 32768 != 0) by (bit_vector)
        requires
            x != 0,
            x & 0xffff_0000 == 0,
    ;
    assert(1u32 << 0u32 == 1 && 1u32 << 1u32 == 2 && 1u32 << 2u32 == 4 && 1u32 << 3u32 == 8 && 1u32
        << 4u32 == 16 && 1u32 << 5u32 == 32 && 1u32 << 6u32 == 64 && 1u32 << 7u32 == 128 && 1u32
        << 8u32 == 256 && 1u32 << 9u32 == 512 && 1u32 << 10u32 == 1024 && 1u32 << 11u32 == 2048
        && 1u32 << 12u32 == 4096 && 1u32 << 13u32 == 8192 && 1u32 << 14u32 == 16384 && 1u32
        << 15u32 == 32768) by (bit_vector);
    if x & 1 != 0 {
        0
    } else if x & 2 != 0 {
        1
    } else if x & 4 != 0 {
        2
    } else if x & 8 != 0 {
        3
    } else if x & 16 != 0 {
        4
    } else if x & 32 != 0 {
        5
    } else if x & 64 != 0 {
        6
    } else if x & 128 != 0 {
        7
    } else if x & 256 != 0 {
        8
    } else if x & 512 != 0 {
        9
    } else if x & 1024 != 0 {
        10
    } else if x & 2048 != 0 {
        11
    } else if x & 4096 != 0 {
        12
    } else if x & 8192 != 0 {
        13
    } else if x & 16384 != 0 {
        14
    } else {
        15
    }
}

/// No node joins the two sides of a body: where a body is near a node and
/// near two particles that lie on opposite sides of it, the node is not
/// compatible with both particles. Two such particles exchange nothing
/// through a node next to the body.
pub proof fn lemma_no_exchange_across_body(particle1: u32, particle2: u32, node: u32, i: u32)
    requires
        i < MAX_BODY_COUNT,
        affinity_bit_spec(i, particle1),
        affinity_bit_spec(i, particle2),
        affinity_bit_spec(i, node),
        sign_bit_spec(i, particle1) != sign_bit_spec(i, particle2),
    ensures
        !(compatible(particle1, node) && compatible(particle2, node)),
{
}

} // verus!
