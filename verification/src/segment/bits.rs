//! Facts about the bits that flag sets are made of.

use vstd::prelude::*;

verus! {

/// Whether `bit` is one of the ten lowest single bits.
pub open spec fn is_flag_bit(bit: u32) -> bool {
    bit == 0x001 || bit == 0x002 || bit == 0x004 || bit == 0x008 || bit == 0x010 || bit == 0x020
        || bit == 0x040 || bit == 0x080 || bit == 0x100 || bit == 0x200
}

/// How a single bit fares under the operations on sets of bits.
pub proof fn lemma_flag_bit_algebra(left: u32, right: u32, bit: u32)
    requires
        is_flag_bit(bit),
    ensures
        0u32 & bit == 0,
        bit & bit != 0,
        0x3ffu32 & bit != 0,
        bit <= 0x8 ==> 0xfu32 & bit != 0,
        ((left | right) & bit != 0) <==> (left & bit != 0 || right & bit != 0),
        ((left & right) & bit != 0) <==> (left & bit != 0 && right & bit != 0),
        ((left & !right) & bit != 0) <==> (left & bit != 0 && right & bit == 0),
{
    assert(0u32 & bit == 0 && bit & bit != 0 && 0x3ffu32 & bit != 0 && (bit <= 0x8u32 ==> 0xfu32
        & bit != 0) && (((left | right) & bit != 0)
        <==> (left & bit != 0 || right & bit != 0)) && (((left & right) & bit != 0) <==> (left & bit
        != 0 && right & bit != 0)) && (((left & !right) & bit != 0) <==> (left & bit != 0 && right
        & bit == 0))) by (bit_vector)
        requires
            bit == 0x001u32 || bit == 0x002u32 || bit == 0x004u32 || bit == 0x008u32 || bit
                == 0x010u32 || bit == 0x020u32 || bit == 0x040u32 || bit == 0x080u32 || bit
                == 0x100u32 || bit == 0x200u32,
    ;
}

/// Two different single bits have nothing in common.
pub proof fn lemma_flag_bits_disjoint(first: u32, second: u32)
    requires
        is_flag_bit(first),
        is_flag_bit(second),
        first != second,
    ensures
        first & second == 0,
{
    assert(first & second == 0) by (bit_vector)
        requires
            first != second,
            first == 0x001u32 || first == 0x002u32 || first == 0x004u32 || first == 0x008u32
                || first == 0x010u32 || first == 0x020u32 || first == 0x040u32 || first
                == 0x080u32 || first == 0x100u32 || first == 0x200u32,
            second == 0x001u32 || second == 0x002u32 || second == 0x004u32 || second == 0x008u32
                || second == 0x010u32 || second == 0x020u32 || second == 0x040u32 || second
                == 0x080u32 || second == 0x100u32 || second == 0x200u32,
    ;
}

/// The operations on sets of bits stay within a mask that both operands are
/// within. The masks are those of the lowest four and the lowest ten bits.
pub proof fn lemma_mask_closed(left: u32, right: u32, mask: u32)
    requires
        mask == 0xf || mask == 0x3ff,
        left <= mask,
        right <= mask,
    ensures
        left | right <= mask,
        left & right <= mask,
        left & !right <= mask,
{
    assert(left | right <= mask && left & right <= mask && left & !right <= mask) by (bit_vector)
        requires
            mask == 0xfu32 || mask == 0x3ffu32,
            left <= mask,
            right <= mask,
    ;
}

/// Two numbers within the lowest ten bits that agree on each of those bits
/// are equal.
pub proof fn lemma_ten_bits_extensional(left: u32, right: u32)
    requires
        left <= 0x3ff,
        right <= 0x3ff,
        forall|bit: u32| is_flag_bit(bit) ==> ((left & bit != 0) <==> (right & bit != 0)),
    ensures
        left == right,
{
    assert(is_flag_bit(0x001) && is_flag_bit(0x002) && is_flag_bit(0x004) && is_flag_bit(0x008)
        && is_flag_bit(0x010));
    assert(is_flag_bit(0x020) && is_flag_bit(0x040) && is_flag_bit(0x080) && is_flag_bit(0x100)
        && is_flag_bit(0x200));
    assert(left == right) by (bit_vector)
        requires
            left <= 0x3ffu32,
            right <= 0x3ffu32,
            (left & 0x001u32 != 0) <==> (right & 0x001u32 != 0),
            (left & 0x002u32 != 0) <==> (right & 0x002u32 != 0),
            (left & 0x004u32 != 0) <==> (right & 0x004u32 != 0),
            (left & 0x008u32 != 0) <==> (right & 0x008u32 != 0),
            (left & 0x010u32 != 0) <==> (right & 0x010u32 != 0),
            (left & 0x020u32 != 0) <==> (right & 0x020u32 != 0),
            (left & 0x040u32 != 0) <==> (right & 0x040u32 != 0),
            (left & 0x080u32 != 0) <==> (right & 0x080u32 != 0),
            (left & 0x100u32 != 0) <==> (right & 0x100u32 != 0),
            (left & 0x200u32 != 0) <==> (right & 0x200u32 != 0),
    ;
}

/// Two numbers within the lowest four bits that agree on each of those bits
/// are equal.
pub proof fn lemma_four_bits_extensional(left: u32, right: u32)
    requires
        left <= 0xf,
        right <= 0xf,
        (left & 0x1 != 0) <==> (right & 0x1 != 0),
        (left & 0x2 != 0) <==> (right & 0x2 != 0),
        (left & 0x4 != 0) <==> (right & 0x4 != 0),
        (left & 0x8 != 0) <==> (right & 0x8 != 0),
    ensures
        left == right,
{
    assert(left == right) by (bit_vector)
        requires
            left <= 0xfu32,
            right <= 0xfu32,
            (left & 0x1u32 != 0) <==> (right & 0x1u32 != 0),
            (left & 0x2u32 != 0) <==> (right & 0x2u32 != 0),
            (left & 0x4u32 != 0) <==> (right & 0x4u32 != 0),
            (left & 0x8u32 != 0) <==> (right & 0x8u32 != 0),
    ;
}

/// A number that holds every bit of another holds each single bit of it.
pub proof fn lemma_superset_has_bit(outer: u32, inner: u32, bit: u32)
    requires
        outer & inner == inner,
        inner & bit != 0,
    ensures
        outer & bit != 0,
{
    assert(outer & bit != 0) by (bit_vector)
        requires
            outer & inner == inner,
            inner & bit != 0,
    ;
}

} // verus!
