use vstd::prelude::*;

verus! {

/// The value whose order a 32-bit sign-magnitude encoding (the layout of an
/// IEEE 754 single) carries: the magnitude bits, negated when the sign bit is
/// set. For two non-NaN floats, `a < b` exactly when
/// `signed_magnitude(a.to_bits()) < signed_magnitude(b.to_bits())`.
pub open spec fn signed_magnitude(bits: u32) -> int {
    let m = (bits & 0x7fff_ffffu32) as int;
    if bits & 0x8000_0000u32 != 0 {
        -m
    } else {
        m
    }
}

proof fn lemma_bits_positive(bits: u32)
    requires
        bits & 0x8000_0000u32 == 0,
    ensures
        bits | 0x8000_0000u32 == bits + 0x8000_0000u32,
        bits & 0x7fff_ffffu32 == bits,
        bits < 0x8000_0000u32,
{
    assert(bits | 0x8000_0000u32 == bits + 0x8000_0000u32) by (bit_vector)
        requires
            bits & 0x8000_0000u32 == 0,
    ;
    assert(bits & 0x7fff_ffffu32 == bits) by (bit_vector)
        requires
            bits & 0x8000_0000u32 == 0,
    ;
    assert(bits < 0x8000_0000u32) by (bit_vector)
        requires
            bits & 0x8000_0000u32 == 0,
    ;
}

proof fn lemma_bits_negative(bits: u32)
    requires
        bits & 0x8000_0000u32 != 0,
    ensures
        !bits == 0xffff_ffffu32 - bits,
        bits & 0x7fff_ffffu32 == bits - 0x8000_0000u32,
        bits >= 0x8000_0000u32,
{
    assert(!bits == 0xffff_ffffu32 - bits) by (bit_vector);
    assert(bits & 0x7fff_ffffu32 == bits - 0x8000_0000u32) by (bit_vector)
        requires
            bits & 0x8000_0000u32 != 0,
    ;
    assert(bits >= 0x8000_0000u32) by (bit_vector)
        requires
            bits & 0x8000_0000u32 != 0,
    ;
}

/// The key of a sign-magnitude encoding: negative values have all their
/// bits flipped, the others have the sign bit set.
pub open spec fn key_spec(bits: u32) -> u32 {
    if bits & 0x8000_0000u32 != 0 {
        !bits
    } else {
        bits | 0x8000_0000u32
    }
}

/// An order-preserving key for the bit pattern of a distance along a ray.
pub fn distance_key(bits: u32) -> (r: u32)
    ensures
        r == key_spec(bits),
{
    if bits & 0x8000_0000u32 != 0 {
        !bits
    } else {
        bits | 0x8000_0000u32
    }
}

/// Keys keep the order of the values they encode: a smaller value has a
/// smaller key, so comparisons of distances can be made on keys.
pub proof fn lemma_key_preserves_order(a: u32, b: u32)
    requires
        signed_magnitude(a) < signed_magnitude(b),
    ensures
        key_spec(a) < key_spec(b),
{
    if a & 0x8000_0000u32 != 0 {
        lemma_bits_negative(a);
    } else {
        lemma_bits_positive(a);
    }
    if b & 0x8000_0000u32 != 0 {
        lemma_bits_negative(b);
    } else {
        lemma_bits_positive(b);
    }
}

/// A smaller key never stands for a larger value.
pub proof fn lemma_key_reflects_order(a: u32, b: u32)
    requires
        key_spec(a) < key_spec(b),
    ensures
        signed_magnitude(a) <= signed_magnitude(b),
{
    if a & 0x8000_0000u32 != 0 {
        lemma_bits_negative(a);
    } else {
        lemma_bits_positive(a);
    }
    if b & 0x8000_0000u32 != 0 {
        lemma_bits_negative(b);
    } else {
        lemma_bits_positive(b);
    }
}

} // verus!
