//! Little-endian integer fields inside byte sequences.
use vstd::arithmetic::power2::pow2;
use vstd::bits::lemma_usize_shr_is_div;
use vstd::prelude::*;

verus! {

/// The value of the 16-bit little-endian field at `off`.
pub open spec fn le16(b: Seq<u8>, off: int) -> int {
    b[off] as int + 256 * b[off + 1] as int
}

/// The value of the 32-bit little-endian field at `off`.
pub open spec fn le32(b: Seq<u8>, off: int) -> int {
    b[off] as int + 256 * b[off + 1] as int + 65536 * b[off + 2] as int + 16777216 * b[off
        + 3] as int
}

/// The four bytes of `v`, least significant first.
pub open spec fn le32_bytes(v: u32) -> Seq<u8> {
    seq![
        (v % 256) as u8,
        ((v / 256) % 256) as u8,
        ((v / 65536) % 256) as u8,
        (v / 16777216) as u8,
    ]
}

/// Decoding the encoding of `v` gives `v` back.
pub proof fn lemma_le32_bytes(v: u32)
    ensures
        le32_bytes(v).len() == 4,
        le32(le32_bytes(v), 0) == v,
{
    let s = le32_bytes(v);
    assert(s[0] == v % 256);
    assert(s[1] == (v / 256) % 256);
    assert(s[2] == (v / 65536) % 256);
    assert(s[3] == v / 16777216);
    assert(v as int == v % 256 + 256 * ((v / 256) % 256) + 65536 * ((v / 65536) % 256) + 16777216
        * (v / 16777216)) by (nonlinear_arith)
        requires
            v <= 0xffff_ffff,
    ;
}

/// The eight bits of `val` that start at bit position `byte`.
pub fn get_byte(val: usize, byte: usize) -> (r: u8)
    requires
        byte < usize::BITS,
    ensures
        r as nat == (val as nat / pow2(byte as nat)) % 256,
{
    proof {
        lemma_usize_shr_is_div(val, byte);
    }
    ((val >> byte) % 256) as u8
}

/// Reads the 16-bit little-endian field at `off`.
pub fn read_u16(b: &[u8], off: usize) -> (r: u16)
    requires
        off + 2 <= b@.len(),
    ensures
        r as int == le16(b@, off as int),
{
    b[off] as u16 + 256 * (b[off + 1] as u16)
}

/// Reads the 32-bit little-endian field at `off`.
pub fn read_u32(b: &[u8], off: usize) -> (r: u32)
    requires
        off + 4 <= b@.len(),
    ensures
        r as int == le32(b@, off as int),
{
    b[off] as u32 + 256 * (b[off + 1] as u32) + 65536 * (b[off + 2] as u32) + 16777216 * (b[off
        + 3] as u32)
}

/// Writes `v` as a 32-bit little-endian field at `off`, leaving every other
/// byte as it was.
pub fn write_u32(b: &mut [u8], off: usize, v: u32)
    requires
        off + 4 <= old(b)@.len(),
    ensures
        final(b)@ == old(b)@.subrange(0, off as int) + le32_bytes(v) + old(b)@.subrange(
            off + 4,
            old(b)@.len() as int,
        ),
{
    b[off] = (v % 256) as u8;
    b[off + 1] = ((v / 256) % 256) as u8;
    b[off + 2] = ((v / 65536) % 256) as u8;
    b[off + 3] = (v / 16777216) as u8;
    assert(b@ =~= old(b)@.subrange(0, off as int) + le32_bytes(v) + old(b)@.subrange(
        off + 4,
        old(b)@.len() as int,
    ));
}

} // verus!

verus! {

/// Copies `src` into `dest` at offset `at`, leaving every other byte of
/// `dest` as it was.
pub fn copy_bytes(dest: &mut [u8], at: usize, src: &[u8])
    requires
        at + src@.len() <= old(dest)@.len(),
    ensures
        final(dest)@ == old(dest)@.subrange(0, at as int) + src@ + old(dest)@.subrange(
            at + src@.len(),
            old(dest)@.len() as int,
        ),
{
    let n = src.len();
    let dlen = dest.len();
    let mut i: usize = 0;
    while i < n
        invariant
            i <= n,
            dlen == dest@.len(),
            n == src@.len(),
            at + n <= old(dest)@.len(),
            dest@.len() == old(dest)@.len(),
            forall|j: int| 0 <= j < i ==> dest@[at + j] == src@[j],
            forall|j: int|
                0 <= j < dest@.len() && !(at <= j < at + i) ==> dest@[j] == old(dest)@[j],
        decreases n - i,
    {
        dest[at + i] = src[i];
        i = i + 1;
    }
    assert(dest@ =~= old(dest)@.subrange(0, at as int) + src@ + old(dest)@.subrange(
        at + src@.len(),
        old(dest)@.len() as int,
    ));
}

} // verus!
