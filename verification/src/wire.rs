//! Little-endian integers in byte buffers handed across the FFI boundary.
use vstd::prelude::*;

verus! {

/// The little-endian `u16` at `p`.
pub open spec fn le_u16(d: Seq<u8>, p: int) -> int {
    d[p] + 256 * d[p + 1]
}

/// The little-endian `u32` at `p`.
pub open spec fn le_u32(d: Seq<u8>, p: int) -> int {
    d[p] + 256 * d[p + 1] + 65536 * d[p + 2] + 16777216 * d[p + 3]
}

/// The little-endian `u64` at `p`.
pub open spec fn le_u64(d: Seq<u8>, p: int) -> int {
    le_u32(d, p) + 4294967296 * le_u32(d, p + 4)
}

/// The two's-complement reading of a 64-bit pattern.
pub open spec fn as_signed64(u: int) -> int {
    if u < 0x8000_0000_0000_0000 {
        u
    } else {
        u - 0x1_0000_0000_0000_0000
    }
}

/// The little-endian `i64` at `p`.
pub open spec fn le_i64(d: Seq<u8>, p: int) -> int {
    as_signed64(le_u64(d, p))
}

/// Read the little-endian `u16` at `p`.
pub fn read_u16_le(d: &[u8], p: usize) -> (v: u16)
    requires
        p + 2 <= d@.len(),
    ensures
        v == le_u16(d@, p as int),
{
    (d[p] as u16) + (d[p + 1] as u16) * 256
}

/// Read the little-endian `u32` at `p`.
pub fn read_u32_le(d: &[u8], p: usize) -> (v: u32)
    requires
        p + 4 <= d@.len(),
    ensures
        v == le_u32(d@, p as int),
{
    (d[p] as u32) + (d[p + 1] as u32) * 256 + (d[p + 2] as u32) * 65536 + (d[p + 3] as u32)
        * 16777216
}

/// Read the little-endian `u64` at `p`.
pub fn read_u64_le(d: &[u8], p: usize) -> (v: u64)
    requires
        p + 8 <= d@.len(),
    ensures
        v == le_u64(d@, p as int),
{
    let n = d.len();
    let lo = read_u32_le(d, p);
    let hi = read_u32_le(d, p + 4);
    (lo as u64) + (hi as u64) * 4294967296
}

/// Read the little-endian `i64` at `p`.
pub fn read_i64_le(d: &[u8], p: usize) -> (v: i64)
    requires
        p + 8 <= d@.len(),
    ensures
        v == le_i64(d@, p as int),
{
    let u = read_u64_le(d, p);
    if u < 0x8000_0000_0000_0000u64 {
        u as i64
    } else {
        let c = !u;
        assert(!u == 0xffff_ffff_ffff_ffffu64 - u) by (bit_vector);
        -(c as i64) - 1
    }
}

/// The little-endian bytes of a `u16`.
pub open spec fn u16_bytes(v: u16) -> Seq<u8> {
    seq![(v & 0xff) as u8, ((v >> 8u16) & 0xff) as u8]
}

/// The little-endian bytes of a `u32`.
pub open spec fn u32_bytes(v: u32) -> Seq<u8> {
    seq![
        (v & 0xff) as u8,
        ((v >> 8u32) & 0xff) as u8,
        ((v >> 16u32) & 0xff) as u8,
        ((v >> 24u32) & 0xff) as u8,
    ]
}

/// The little-endian bytes of a `u64`.
pub open spec fn u64_bytes(v: u64) -> Seq<u8> {
    u32_bytes((v & 0xffff_ffff) as u32) + u32_bytes((v >> 32u64) as u32)
}

/// Reading back the bytes of a `u16` gives the value.
pub proof fn lemma_u16_round_trip(d: Seq<u8>, p: int, v: u16)
    requires
        0 <= p,
        p + 2 <= d.len(),
        d.subrange(p, p + 2) == u16_bytes(v),
    ensures
        le_u16(d, p) == v,
{
    assert(d[p] == u16_bytes(v)[0]);
    assert(d[p + 1] == u16_bytes(v)[1]);
    assert(((v & 0xff) as u8) as int + 256 * (((v >> 8u16) & 0xff) as u8) as int == v as int)
        by (bit_vector);
}

/// Reading back the bytes of a `u32` gives the value.
pub proof fn lemma_u32_round_trip(d: Seq<u8>, p: int, v: u32)
    requires
        0 <= p,
        p + 4 <= d.len(),
        d.subrange(p, p + 4) == u32_bytes(v),
    ensures
        le_u32(d, p) == v,
{
    assert(d[p] == u32_bytes(v)[0]);
    assert(d[p + 1] == u32_bytes(v)[1]);
    assert(d[p + 2] == u32_bytes(v)[2]);
    assert(d[p + 3] == u32_bytes(v)[3]);
    assert(((v & 0xff) as u8) as int + 256 * (((v >> 8u32) & 0xff) as u8) as int + 65536 * (((v
        >> 16u32) & 0xff) as u8) as int + 16777216 * (((v >> 24u32) & 0xff) as u8) as int
        == v as int) by (bit_vector);
}

/// Reading back the bytes of a `u64` gives the value.
pub proof fn lemma_u64_round_trip(d: Seq<u8>, p: int, v: u64)
    requires
        0 <= p,
        p + 8 <= d.len(),
        d.subrange(p, p + 8) == u64_bytes(v),
    ensures
        le_u64(d, p) == v,
{
    let lo = (v & 0xffff_ffff) as u32;
    let hi = (v >> 32u64) as u32;
    assert(d.subrange(p, p + 4) =~= u32_bytes(lo)) by {
        assert forall|i: int| 0 <= i < 4 implies d.subrange(p, p + 4)[i] == u32_bytes(lo)[i] by {
            assert(d.subrange(p, p + 8)[i] == u64_bytes(v)[i]);
        }
    }
    assert(d.subrange(p + 4, p + 8) =~= u32_bytes(hi)) by {
        assert forall|i: int| 0 <= i < 4 implies d.subrange(p + 4, p + 8)[i] == u32_bytes(hi)[i] by {
            assert(d.subrange(p, p + 8)[i + 4] == u64_bytes(v)[i + 4]);
        }
    }
    lemma_u32_round_trip(d, p, lo);
    lemma_u32_round_trip(d, p + 4, hi);
    assert(lo as int + 4294967296 * hi as int == v as int) by (bit_vector)
        requires
            lo == (v & 0xffff_ffff) as u32,
            hi == (v >> 32u64) as u32,
    ;
}

/// An `i64` stored as the bytes of its bit pattern reads back as itself.
pub proof fn lemma_i64_round_trip(d: Seq<u8>, p: int, v: i64)
    requires
        0 <= p,
        p + 8 <= d.len(),
        d.subrange(p, p + 8) == u64_bytes(v as u64),
    ensures
        le_i64(d, p) == v,
{
    lemma_u64_round_trip(d, p, v as u64);
    let u = v as u64;
    assert(as_signed64(u as int) == v as int) by {
        assert((u as int) < 0x8000_0000_0000_0000 ==> u as int == v as int) by (bit_vector)
            requires
                u == v as u64,
        ;
        assert((u as int) >= 0x8000_0000_0000_0000 ==> u as int - 0x1_0000_0000_0000_0000
            == v as int) by (bit_vector)
            requires
                u == v as u64,
        ;
    }
}

} // verus!
