//! Little-endian integer encodings used by the snapshot decoder and the
//! transaction encoder, plus saturating arithmetic over atomic-unit values.

use vstd::prelude::*;

verus! {

/// Clamp a mathematical integer into the range of `u64`.
pub open spec fn clamp_u64(x: int) -> int {
    if x > u64::MAX {
        u64::MAX as int
    } else {
        x
    }
}

/// The four little-endian bytes of a 32-bit integer.
pub open spec fn le32_bytes(x: u32) -> Seq<u8> {
    seq![
        (x % 0x100) as u8,
        ((x / 0x100) % 0x100) as u8,
        ((x / 0x10000) % 0x100) as u8,
        ((x / 0x1000000) % 0x100) as u8,
    ]
}

/// The eight little-endian bytes of a 64-bit integer.
pub open spec fn le64_bytes(x: u64) -> Seq<u8> {
    seq![
        (x % 0x100) as u8,
        ((x / 0x100) % 0x100) as u8,
        ((x / 0x10000) % 0x100) as u8,
        ((x / 0x1000000) % 0x100) as u8,
        ((x / 0x100000000) % 0x100) as u8,
        ((x / 0x10000000000) % 0x100) as u8,
        ((x / 0x1000000000000) % 0x100) as u8,
        ((x / 0x100000000000000) % 0x100) as u8,
    ]
}

/// The integer read little-endian from four bytes.
pub open spec fn le32_of(s: Seq<u8>) -> int
    recommends
        s.len() == 4,
{
    s[0] + s[1] * 0x100 + s[2] * 0x10000 + s[3] * 0x1000000
}

/// The integer read little-endian from eight bytes.
pub open spec fn le64_of(s: Seq<u8>) -> int
    recommends
        s.len() == 8,
{
    s[0] + s[1] * 0x100 + s[2] * 0x10000 + s[3] * 0x1000000 + s[4] * 0x100000000 + s[5]
        * 0x10000000000 + s[6] * 0x1000000000000 + s[7] * 0x100000000000000
}

pub proof fn lemma_le32_of_range(s: Seq<u8>)
    requires
        s.len() == 4,
    ensures
        0 <= le32_of(s) <= u32::MAX,
{
}

pub proof fn lemma_le64_of_range(s: Seq<u8>)
    requires
        s.len() == 8,
    ensures
        0 <= le64_of(s) <= u64::MAX,
{
}

/// Append the four little-endian bytes of `x` to `out`.
pub fn push_u32_le(out: &mut Vec<u8>, x: u32)
    ensures
        final(out)@ == old(out)@ + le32_bytes(x),
{
    out.push((x % 0x100) as u8);
    out.push(((x / 0x100) % 0x100) as u8);
    out.push(((x / 0x10000) % 0x100) as u8);
    out.push(((x / 0x1000000) % 0x100) as u8);
    assert(out@ =~= old(out)@ + le32_bytes(x));
}

/// Append the eight little-endian bytes of `x` to `out`.
pub fn push_u64_le(out: &mut Vec<u8>, x: u64)
    ensures
        final(out)@ == old(out)@ + le64_bytes(x),
{
    out.push((x % 0x100) as u8);
    out.push(((x / 0x100) % 0x100) as u8);
    out.push(((x / 0x10000) % 0x100) as u8);
    out.push(((x / 0x1000000) % 0x100) as u8);
    out.push(((x / 0x100000000) % 0x100) as u8);
    out.push(((x / 0x10000000000) % 0x100) as u8);
    out.push(((x / 0x1000000000000) % 0x100) as u8);
    out.push(((x / 0x100000000000000) % 0x100) as u8);
    assert(out@ =~= old(out)@ + le64_bytes(x));
}

/// Read a 32-bit little-endian integer at offset `off`.
pub fn read_u32_le(s: &Vec<u8>, off: usize) -> (r: u32)
    requires
        off + 4 <= s@.len(),
    ensures
        r as int == le32_of(s@.subrange(off as int, off + 4)),
{
    let n: usize = s.len();
    assert(off + 4 <= n);
    let b0 = s[off] as u32;
    let b1 = s[off + 1] as u32;
    let b2 = s[off + 2] as u32;
    let b3 = s[off + 3] as u32;
    let r = b0 + b1 * 0x100 + b2 * 0x10000 + b3 * 0x1000000;
    proof {
        let sub = s@.subrange(off as int, off + 4);
        assert(sub[0] == s@[off as int] && sub[1] == s@[off + 1] && sub[2] == s@[off + 2] && sub[3]
            == s@[off + 3]);
    }
    r
}

/// Read a 64-bit little-endian integer at offset `off`.
pub fn read_u64_le(s: &Vec<u8>, off: usize) -> (r: u64)
    requires
        off + 8 <= s@.len(),
    ensures
        r as int == le64_of(s@.subrange(off as int, off + 8)),
{
    let n: usize = s.len();
    assert(off + 8 <= n);
    let b0 = s[off] as u64;
    let b1 = s[off + 1] as u64;
    let b2 = s[off + 2] as u64;
    let b3 = s[off + 3] as u64;
    let b4 = s[off + 4] as u64;
    let b5 = s[off + 5] as u64;
    let b6 = s[off + 6] as u64;
    let b7 = s[off + 7] as u64;
    let r = b0 + b1 * 0x100 + b2 * 0x10000 + b3 * 0x1000000 + b4 * 0x100000000 + b5
        * 0x10000000000 + b6 * 0x1000000000000 + b7 * 0x100000000000000;
    proof {
        let sub = s@.subrange(off as int, off + 8);
        assert(sub[0] == s@[off as int] && sub[1] == s@[off + 1] && sub[2] == s@[off + 2] && sub[3]
            == s@[off + 3] && sub[4] == s@[off + 4] && sub[5] == s@[off + 5] && sub[6] == s@[off
            + 6] && sub[7] == s@[off + 7]);
    }
    r
}

/// Copy the byte range `[a, b)` of `s` into a fresh vector.
pub fn copy_range(s: &Vec<u8>, a: usize, b: usize) -> (r: Vec<u8>)
    requires
        a <= b <= s@.len(),
    ensures
        r@ == s@.subrange(a as int, b as int),
{
    let mut out: Vec<u8> = Vec::new();
    let mut j: usize = a;
    while j < b
        invariant
            a <= j <= b <= s@.len(),
            out@ == s@.subrange(a as int, j as int),
        decreases b - j,
    {
        out.push(s[j]);
        proof {
            assert(out@ =~= s@.subrange(a as int, j + 1));
        }
        j = j + 1;
    }
    out
}

/// Append all bytes of `src` to `out`.
pub fn push_bytes(out: &mut Vec<u8>, src: &Vec<u8>)
    ensures
        final(out)@ == old(out)@ + src@,
{
    let n: usize = src.len();
    let mut j: usize = 0;
    while j < n
        invariant
            j <= n,
            n == src@.len(),
            out@ == old(out)@ + src@.take(j as int),
        decreases n - j,
    {
        out.push(src[j]);
        proof {
            assert(out@ =~= old(out)@ + src@.take(j + 1));
        }
        j = j + 1;
    }
    proof {
        assert(out@ =~= old(out)@ + src@);
    }
}

/// Add two atomic-unit amounts, clamping at the largest representable value.
pub fn sat_add(a: u64, b: u64) -> (r: u64)
    ensures
        r as int == clamp_u64(a + b),
{
    if a <= u64::MAX - b {
        a + b
    } else {
        u64::MAX
    }
}

} // verus!
