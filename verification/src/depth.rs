//! Depth as an ordinal.
//!
//! The renderer compares depths and never does arithmetic on them, so a depth
//! is stored as a `u32` whose integer order is the order of the
//! single-precision value it stands for: smaller is nearer.  A caller that
//! holds such a value hands over its bit pattern (sign, eight exponent bits,
//! twenty-three fraction bits) and gets the ordinal back.

use vstd::prelude::*;

verus! {

/// The ordinal of positive infinity: the depth of a pixel on which nothing
/// has been drawn.
pub const DEPTH_CLEAR: u32 = 0xFF80_0000;

/// The ordinal of one tenth, the near plane: a triangle with a vertex at or
/// in front of it is not drawn.
pub const NEAR_PLANE: u32 = 0xBDCC_CCCD;

/// The ordinal of every bit pattern that is not a number. It lies beyond
/// infinity, so such a depth is never nearer than anything.
pub const DEPTH_NAN: u32 = 0xFFFF_FFFF;

/// The exponent and fraction bits of a pattern.
pub open spec fn magnitude(bits: u32) -> int {
    (bits & 0x7FFF_FFFF) as int
}

/// Whether the sign bit of a pattern is set.
pub open spec fn is_negative(bits: u32) -> bool {
    bits & 0x8000_0000 != 0
}

/// Whether a pattern is not a number: all exponent bits set and a fraction
/// that is not zero.
pub open spec fn is_nan(bits: u32) -> bool {
    magnitude(bits) > 0x7F80_0000
}

/// A pattern as a signed integer that orders as the values do: the magnitude,
/// negated under a sign bit. Both zeros give 0.
pub open spec fn signed_magnitude(bits: u32) -> int {
    if is_negative(bits) {
        -magnitude(bits)
    } else {
        magnitude(bits)
    }
}

/// The ordinal of a pattern.
pub open spec fn ordinal(bits: u32) -> int {
    if is_nan(bits) {
        DEPTH_NAN as int
    } else {
        0x8000_0000 + signed_magnitude(bits)
    }
}

/// The ordinal of the value with the given bit pattern.
pub fn depth_from_bits(bits: u32) -> (depth: u32)
    ensures
        depth == ordinal(bits),
{
    let mag: u32 = bits & 0x7FFF_FFFF;
    assert(bits & 0x7FFF_FFFF <= 0x7FFF_FFFF) by (bit_vector);
    if mag > 0x7F80_0000 {
        DEPTH_NAN
    } else if bits & 0x8000_0000 != 0 {
        0x8000_0000 - mag
    } else {
        0x8000_0000 + mag
    }
}

/// The ordinal of negative infinity: the smallest ordinal of a number.
pub const DEPTH_NEAREST: u32 = 0x0080_0000;

/// Whether a depth is the ordinal of a number.
pub open spec fn is_number(depth: u32) -> bool {
    DEPTH_NEAREST <= depth <= DEPTH_CLEAR
}

/// The bit pattern that a depth stands for. The ordinal of zero gives
/// positive zero. A depth beyond infinity gives a pattern that is not a
/// number, and one before negative infinity gives negative infinity.
pub open spec fn pattern(depth: u32) -> u32 {
    if depth > DEPTH_CLEAR {
        0x7FC0_0000
    } else if depth >= 0x8000_0000 {
        (depth - 0x8000_0000) as u32
    } else if depth >= DEPTH_NEAREST {
        (0x1_0000_0000 - depth) as u32
    } else {
        0xFF80_0000
    }
}

/// The bit pattern of the value that a depth stands for, for whoever is
/// handed the depths and wants them as values again. It undoes
/// `depth_from_bits` on every ordinal.
pub fn depth_to_bits(depth: u32) -> (bits: u32)
    ensures
        bits == pattern(depth),
        is_number(depth) ==> !is_nan(bits) && ordinal(bits) == depth,
        depth > DEPTH_CLEAR ==> is_nan(bits) && ordinal(bits) == DEPTH_NAN,
{
    proof {
        lemma_pattern(depth);
    }
    if depth > DEPTH_CLEAR {
        0x7FC0_0000
    } else if depth >= 0x8000_0000 {
        depth - 0x8000_0000
    } else if depth >= DEPTH_NEAREST {
        0x8000_0000 + (0x8000_0000 - depth)
    } else {
        0xFF80_0000
    }
}

/// A pattern and its depth go together: the pattern of the ordinal of a
/// number has that ordinal again, and what is not a number stays so.
pub proof fn lemma_pattern(depth: u32)
    ensures
        is_number(depth) ==> !is_nan(pattern(depth)) && ordinal(pattern(depth)) == depth,
        depth > DEPTH_CLEAR ==> is_nan(pattern(depth)) && ordinal(pattern(depth)) == DEPTH_NAN,
        depth < DEPTH_NEAREST ==> ordinal(pattern(depth)) == DEPTH_NEAREST,
{
    let bits = pattern(depth);
    if depth > DEPTH_CLEAR {
        assert(0x7FC0_0000u32 & 0x7FFF_FFFF == 0x7FC0_0000) by (bit_vector);
    } else if depth >= 0x8000_0000 {
        assert(bits & 0x7FFF_FFFF == bits && bits & 0x8000_0000 == 0) by (bit_vector)
            requires
                bits <= 0x7F80_0000,
        ;
    } else if depth >= DEPTH_NEAREST {
        let m: u32 = (0x8000_0000 - depth) as u32;
        assert(bits & 0x7FFF_FFFF == m && bits & 0x8000_0000 != 0) by (bit_vector)
            requires
                bits == 0x8000_0000 + m,
                0 < m <= 0x7F80_0000,
        ;
    } else {
        assert(0xFF80_0000u32 & 0x7FFF_FFFF == 0x7F80_0000 && 0xFF80_0000u32 & 0x8000_0000 != 0)
            by (bit_vector);
    }
}

/// Every depth that `depth_from_bits` gives is given back: from the
/// pattern of an ordinal comes the same ordinal.
pub proof fn lemma_round_trip(bits: u32)
    ensures
        ordinal(pattern(ordinal(bits) as u32)) == ordinal(bits),
        !is_nan(bits) ==> is_number(ordinal(bits) as u32),
{
    assert(bits & 0x7FFF_FFFF <= 0x7FFF_FFFF) by (bit_vector);
    lemma_pattern(ordinal(bits) as u32);
}

/// Ordinals order as the values do: of two patterns that are numbers, one has
/// the smaller ordinal exactly when it has the smaller signed magnitude, and
/// the two zeros share an ordinal. A pattern that is not a number is never
/// below another.
pub proof fn lemma_ordinal_order(a: u32, b: u32)
    ensures
        !is_nan(a) && !is_nan(b) ==> (ordinal(a) < ordinal(b) <==> signed_magnitude(a)
            < signed_magnitude(b)),
        magnitude(a) == 0 && magnitude(b) == 0 ==> ordinal(a) == ordinal(b),
        is_nan(a) ==> ordinal(a) >= ordinal(b),
        0 <= ordinal(a) <= u32::MAX,
{
    assert(a & 0x7FFF_FFFF <= 0x7FFF_FFFF) by (bit_vector);
    assert(b & 0x7FFF_FFFF <= 0x7FFF_FFFF) by (bit_vector);
}

/// Where the named depths lie: infinity is the largest ordinal of a number,
/// and the near plane is a positive number below one.
pub proof fn lemma_named_depths()
    ensures
        DEPTH_CLEAR == ordinal(0x7F80_0000),
        NEAR_PLANE == ordinal(0x3DCC_CCCD),
        forall|bits: u32| !is_nan(bits) ==> ordinal(bits) <= DEPTH_CLEAR,
        ordinal(0) < NEAR_PLANE < ordinal(0x3F80_0000) < DEPTH_CLEAR < DEPTH_NAN,
{
    assert(0x7F80_0000u32 & 0x7FFF_FFFF == 0x7F80_0000 && 0x7F80_0000u32 & 0x8000_0000 == 0)
        by (bit_vector);
    assert(0x3DCC_CCCDu32 & 0x7FFF_FFFF == 0x3DCC_CCCD && 0x3DCC_CCCDu32 & 0x8000_0000 == 0)
        by (bit_vector);
    assert(0x3F80_0000u32 & 0x7FFF_FFFF == 0x3F80_0000 && 0x3F80_0000u32 & 0x8000_0000 == 0)
        by (bit_vector);
    assert(0u32 & 0x7FFF_FFFF == 0 && 0u32 & 0x8000_0000 == 0) by (bit_vector);
    assert forall|bits: u32| !is_nan(bits) implies ordinal(bits) <= DEPTH_CLEAR by {
        assert(bits & 0x7FFF_FFFF <= 0x7FFF_FFFF) by (bit_vector);
    }
}

} // verus!
