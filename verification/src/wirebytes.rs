use vstd::prelude::*;

verus! {

/// Little-endian byte image of a 16-bit unsigned value.
pub open spec fn u16_le(v: u16) -> Seq<u8> {
    seq![(v & 0xff) as u8, ((v >> 8) & 0xff) as u8]
}

/// Little-endian byte image of a 32-bit unsigned value.
pub open spec fn u32_le(v: u32) -> Seq<u8> {
    seq![
        (v & 0xff) as u8,
        ((v >> 8) & 0xff) as u8,
        ((v >> 16) & 0xff) as u8,
        ((v >> 24) & 0xff) as u8,
    ]
}

/// Little-endian byte image of a 64-bit unsigned value.
pub open spec fn u64_le(v: u64) -> Seq<u8> {
    seq![
        (v & 0xff) as u8,
        ((v >> 8) & 0xff) as u8,
        ((v >> 16) & 0xff) as u8,
        ((v >> 24) & 0xff) as u8,
        ((v >> 32) & 0xff) as u8,
        ((v >> 40) & 0xff) as u8,
        ((v >> 48) & 0xff) as u8,
        ((v >> 56) & 0xff) as u8,
    ]
}

/// The 16-bit value whose little-endian image begins a byte sequence.
pub open spec fn u16_from_le(bytes: Seq<u8>) -> u16 {
    (bytes[0] as u16 | ((bytes[1] as u16) << 8)) as u16
}

/// The 32-bit value whose little-endian image begins a byte sequence.
pub open spec fn u32_from_le(bytes: Seq<u8>) -> u32 {
    (bytes[0] as u32 | ((bytes[1] as u32) << 8) | ((bytes[2] as u32) << 16) | ((bytes[3] as u32)
        << 24)) as u32
}

/// The 64-bit value whose little-endian image begins a byte sequence.
pub open spec fn u64_from_le(bytes: Seq<u8>) -> u64 {
    (bytes[0] as u64 | ((bytes[1] as u64) << 8) | ((bytes[2] as u64) << 16) | ((bytes[3] as u64)
        << 24) | ((bytes[4] as u64) << 32) | ((bytes[5] as u64) << 40) | ((bytes[6] as u64) << 48)
        | ((bytes[7] as u64) << 56)) as u64
}

/// Reading back the little-endian image of a 16-bit value gives the value.
pub proof fn lemma_u16_le_roundtrip(v: u16)
    ensures
        u16_from_le(u16_le(v)) == v,
{
    assert(((v & 0xff) as u8 as u16 | (((v >> 8) & 0xff) as u8 as u16) << 8) as u16 == v)
        by (bit_vector);
}

/// Reading back the little-endian image of a 32-bit value gives the value.
pub proof fn lemma_u32_le_roundtrip(v: u32)
    ensures
        u32_from_le(u32_le(v)) == v,
{
    assert(((v & 0xff) as u8 as u32 | (((v >> 8) & 0xff) as u8 as u32) << 8 | (((v >> 16)
        & 0xff) as u8 as u32) << 16 | (((v >> 24) & 0xff) as u8 as u32) << 24) as u32 == v)
        by (bit_vector);
}

/// Reading back the little-endian image of a 64-bit value gives the value.
pub proof fn lemma_u64_le_roundtrip(v: u64)
    ensures
        u64_from_le(u64_le(v)) == v,
{
    assert(((v & 0xff) as u8 as u64 | (((v >> 8) & 0xff) as u8 as u64) << 8 | (((v >> 16)
        & 0xff) as u8 as u64) << 16 | (((v >> 24) & 0xff) as u8 as u64) << 24 | (((v >> 32)
        & 0xff) as u8 as u64) << 32 | (((v >> 40) & 0xff) as u8 as u64) << 40 | (((v >> 48)
        & 0xff) as u8 as u64) << 48 | (((v >> 56) & 0xff) as u8 as u64) << 56) as u64 == v)
        by (bit_vector);
}

/// The two's-complement bit image of a signed 8-bit value.
pub open spec fn i8_bits(v: i8) -> u8 {
    if v >= 0 {
        v as u8
    } else {
        (v + 0x100) as u8
    }
}

/// The signed 8-bit value behind a two's-complement bit image.
pub open spec fn i8_from_bits(b: u8) -> i8 {
    if b < 0x80 {
        b as i8
    } else {
        (b - 0x100) as i8
    }
}

/// The two's-complement bit image of a signed 16-bit value.
pub open spec fn i16_bits(v: i16) -> u16 {
    if v >= 0 {
        v as u16
    } else {
        (v + 0x1_0000) as u16
    }
}

/// The signed 16-bit value behind a two's-complement bit image.
pub open spec fn i16_from_bits(b: u16) -> i16 {
    if b < 0x8000 {
        b as i16
    } else {
        (b - 0x1_0000) as i16
    }
}

/// The two's-complement bit image of a signed 32-bit value.
pub open spec fn i32_bits(v: i32) -> u32 {
    if v >= 0 {
        v as u32
    } else {
        (v + 0x1_0000_0000) as u32
    }
}

/// The signed 32-bit value behind a two's-complement bit image.
pub open spec fn i32_from_bits(b: u32) -> i32 {
    if b < 0x8000_0000 {
        b as i32
    } else {
        (b - 0x1_0000_0000) as i32
    }
}

/// The two's-complement bit image of a signed 64-bit value.
pub open spec fn i64_bits(v: i64) -> u64 {
    if v >= 0 {
        v as u64
    } else {
        (v + 0x1_0000_0000_0000_0000) as u64
    }
}

/// The signed 64-bit value behind a two's-complement bit image.
pub open spec fn i64_from_bits(b: u64) -> i64 {
    if b < 0x8000_0000_0000_0000 {
        b as i64
    } else {
        (b - 0x1_0000_0000_0000_0000) as i64
    }
}

/// Reading back the bit image of a signed value gives the value, at
/// every width.
pub proof fn lemma_signed_bits_roundtrip(a: i8, b: i16, c: i32, d: i64)
    ensures
        i8_from_bits(i8_bits(a)) == a,
        i16_from_bits(i16_bits(b)) == b,
        i32_from_bits(i32_bits(c)) == c,
        i64_from_bits(i64_bits(d)) == d,
{
}

/// A prefix determines the 16-bit value read from it.
pub proof fn lemma_u16_from_le_prefix(a: Seq<u8>, b: Seq<u8>)
    requires
        a.len() >= 2,
        a.is_prefix_of(b),
    ensures
        u16_from_le(a) == u16_from_le(b),
{
    assert(a[0] == b[0]);
    assert(a[1] == b[1]);
}

/// A prefix determines the 32-bit value read from it.
pub proof fn lemma_u32_from_le_prefix(a: Seq<u8>, b: Seq<u8>)
    requires
        a.len() >= 4,
        a.is_prefix_of(b),
    ensures
        u32_from_le(a) == u32_from_le(b),
{
    assert(a[0] == b[0]);
    assert(a[1] == b[1]);
    assert(a[2] == b[2]);
    assert(a[3] == b[3]);
}

/// A prefix determines the 64-bit value read from it.
pub proof fn lemma_u64_from_le_prefix(a: Seq<u8>, b: Seq<u8>)
    requires
        a.len() >= 8,
        a.is_prefix_of(b),
    ensures
        u64_from_le(a) == u64_from_le(b),
{
    assert(forall|i: int| 0 <= i < 8 ==> a[i] == b[i]);
}

} // verus!
