//! Spec-level meaning of the wire primitives: little-endian integers,
//! null-terminated fixed-width strings, `-1` sentinels, and the total order
//! this crate uses on encoded single-precision scalars.

use vstd::prelude::*;

verus! {

/// The little-endian `u16` stored at `p`.
pub open spec fn le16_at(d: Seq<u8>, p: int) -> u16
    recommends
        0 <= p,
        p + 2 <= d.len(),
{
    (d[p] as u16) | ((d[p + 1] as u16) << 8)
}

/// The little-endian `u32` stored at `p`.
pub open spec fn le32_at(d: Seq<u8>, p: int) -> u32
    recommends
        0 <= p,
        p + 4 <= d.len(),
{
    (d[p] as u32) | ((d[p + 1] as u32) << 8) | ((d[p + 2] as u32) << 16) | ((d[p + 3] as u32)
        << 24)
}

/// The same four bytes reinterpreted as a signed value.
pub open spec fn le32i_at(d: Seq<u8>, p: int) -> i32
    recommends
        0 <= p,
        p + 4 <= d.len(),
{
    le32_at(d, p) as i32
}

/// Sentinel decoding for unsigned identifiers: the all-ones pattern (`-1` as
/// a signed field) means absent; any other value is itself.
pub open spec fn opt_u32(v: u32) -> Option<u32> {
    if v == 0xFFFF_FFFFu32 {
        None
    } else {
        Some(v)
    }
}

/// Sentinel decoding for fields kept signed: `-1` means absent.
pub open spec fn opt_i32(v: i32) -> Option<i32> {
    if v == -1 {
        None
    } else {
        Some(v)
    }
}

/// Index of the first null byte in `b`, or `b.len()` when none occurs.
pub open spec fn first_nul(b: Seq<u8>) -> int
    decreases b.len(),
{
    if b.len() == 0 {
        0
    } else if b[0] == 0 {
        0
    } else {
        1 + first_nul(b.subrange(1, b.len() as int))
    }
}

/// The logical content of a fixed-width string slot: the prefix up to the
/// first null byte.
pub open spec fn nul_prefix(b: Seq<u8>) -> Seq<u8> {
    b.subrange(0, first_nul(b))
}

/// Index of the first byte of `b` that is not null, or `b.len()` when all
/// bytes are null.  Texture path slots may be populated right-aligned, with
/// leading nulls before the path.
pub open spec fn first_non_nul(b: Seq<u8>) -> int
    decreases b.len(),
{
    if b.len() == 0 {
        0
    } else if b[0] != 0 {
        0
    } else {
        1 + first_non_nul(b.subrange(1, b.len() as int))
    }
}

/// The logical content of a texture path slot: leading nulls are stripped,
/// then the content runs to the next null.
pub open spec fn path_slice(b: Seq<u8>) -> Seq<u8> {
    nul_prefix(b.subrange(first_non_nul(b), b.len() as int))
}

/// `first_nul` is determined by any witness position: if everything before
/// `i` is non-null and `i` is null (or the end), then `first_nul` is `i`.
pub proof fn lemma_first_nul_witness(b: Seq<u8>, i: int)
    requires
        0 <= i <= b.len(),
        forall|k: int| 0 <= k < i ==> b[k] != 0,
        i < b.len() ==> b[i] == 0,
    ensures
        first_nul(b) == i,
    decreases b.len(),
{
    if b.len() != 0 && b[0] != 0 {
        let t = b.subrange(1, b.len() as int);
        assert(forall|k: int| 0 <= k < i - 1 ==> t[k] == b[k + 1] && t[k] != 0);
        lemma_first_nul_witness(t, i - 1);
    }
}

pub proof fn lemma_first_non_nul_witness(b: Seq<u8>, i: int)
    requires
        0 <= i <= b.len(),
        forall|k: int| 0 <= k < i ==> b[k] == 0,
        i < b.len() ==> b[i] != 0,
    ensures
        first_non_nul(b) == i,
    decreases b.len(),
{
    if b.len() != 0 && b[0] == 0 {
        let t = b.subrange(1, b.len() as int);
        assert(forall|k: int| 0 <= k < i - 1 ==> t[k] == b[k + 1] && t[k] == 0);
        lemma_first_non_nul_witness(t, i - 1);
    }
}

/// What `String::from_utf8_lossy` decodes a byte sequence to.  The exact
/// value matters only through the trusted item that applies it; on ASCII
/// input the decoding is pinned down exactly.
pub uninterp spec fn utf8_lossy_of(b: Seq<u8>) -> Seq<char>;

/// A sequence of bytes that are all ASCII.
pub open spec fn all_ascii(b: Seq<u8>) -> bool {
    forall|k: int| 0 <= k < b.len() ==> b[k] < 128
}

/// ASCII bytes decoded one-for-one into characters.
pub open spec fn ascii_chars(b: Seq<u8>) -> Seq<char> {
    b.map_values(|x: u8| x as char)
}

/// The order this crate uses on encoded single-precision scalars: the
/// standard total order on IEEE-754 bit patterns.  Patterns with the sign
/// bit set (negative values) are ranked by inverting all bits; the rest by
/// setting the sign bit.  On values that are neither NaN nor a differently
/// signed zero this agrees with the numeric order.
pub open spec fn fkey(a: u32) -> int {
    if a >= 0x8000_0000u32 {
        0xFFFF_FFFFu32 - a
    } else {
        a + 0x8000_0000u32
    }
}

/// `a` is at most `b` in the encoded-scalar order.
pub open spec fn fbits_le(a: u32, b: u32) -> bool {
    fkey(a) <= fkey(b)
}

/// Exec comparison of encoded scalars, equal to the spec order.
pub fn fbits_le_exec(a: u32, b: u32) -> (r: bool)
    ensures
        r == fbits_le(a, b),
{
    let ka: u64 = if a >= 0x8000_0000u32 {
        (0xFFFF_FFFFu32 - a) as u64
    } else {
        a as u64 + 0x8000_0000u64
    };
    let kb: u64 = if b >= 0x8000_0000u32 {
        (0xFFFF_FFFFu32 - b) as u64
    } else {
        b as u64 + 0x8000_0000u64
    };
    ka <= kb
}

/// The encoded-scalar order is total: two patterns with equal keys are the
/// same pattern, so `fbits_le` is antisymmetric, transitive and total.
pub proof fn lemma_fbits_le_total_order(a: u32, b: u32, c: u32)
    ensures
        fbits_le(a, b) || fbits_le(b, a),
        fbits_le(a, b) && fbits_le(b, a) ==> a == b,
        fbits_le(a, b) && fbits_le(b, c) ==> fbits_le(a, c),
{
}

} // verus!
