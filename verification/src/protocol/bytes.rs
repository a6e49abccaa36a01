//! Integers as runs of bytes, in both byte orders.

use vstd::prelude::*;
use vstd::slice::*;

verus! {

/// Two bytes, the most significant first.
pub open spec fn be16(x: u16) -> Seq<u8> {
    seq![(x / 0x100) as u8, (x % 0x100) as u8]
}

/// Four bytes, the most significant first.
pub open spec fn be32(x: u32) -> Seq<u8> {
    seq![
        (x / 0x100_0000) as u8,
        (x / 0x1_0000 % 0x100) as u8,
        (x / 0x100 % 0x100) as u8,
        (x % 0x100) as u8,
    ]
}

/// Eight bytes, the most significant first.
pub open spec fn be64(x: u64) -> Seq<u8> {
    be32((x / 0x1_0000_0000) as u32) + be32((x % 0x1_0000_0000) as u32)
}

/// Two bytes, the least significant first.
pub open spec fn le16(x: u16) -> Seq<u8> {
    seq![(x % 0x100) as u8, (x / 0x100) as u8]
}

/// Four bytes, the least significant first.
pub open spec fn le32(x: u32) -> Seq<u8> {
    seq![
        (x % 0x100) as u8,
        (x / 0x100 % 0x100) as u8,
        (x / 0x1_0000 % 0x100) as u8,
        (x / 0x100_0000) as u8,
    ]
}

/// The number that two bytes denote, the most significant first.
pub open spec fn be16_value(s: Seq<u8>, at: int) -> u16 {
    (s[at] * 0x100 + s[at + 1]) as u16
}

/// The number that four bytes denote, the most significant first.
pub open spec fn be32_value(s: Seq<u8>, at: int) -> u32 {
    (s[at] * 0x100_0000 + s[at + 1] * 0x1_0000 + s[at + 2] * 0x100 + s[at + 3]) as u32
}

/// The number that eight bytes denote, the most significant first.
pub open spec fn be64_value(s: Seq<u8>, at: int) -> u64 {
    (be32_value(s, at) * 0x1_0000_0000 + be32_value(s, at + 4)) as u64
}

/// The number that two bytes denote, the least significant first.
pub open spec fn le16_value(s: Seq<u8>, at: int) -> u16 {
    (s[at] + s[at + 1] * 0x100) as u16
}

/// The bytes of `s` from `at` on are those of `part`, which ends within `s`.
pub open spec fn bytes_at(s: Seq<u8>, at: int, part: Seq<u8>) -> bool {
    &&& 0 <= at
    &&& at + part.len() <= s.len()
    &&& forall|i: int| 0 <= i < part.len() ==> s[at + i] == #[trigger] part[i]
}

/// What is written as two bytes is read back, wherever it stands.
pub proof fn be16_read_back(s: Seq<u8>, at: int, x: u16)
    requires
        bytes_at(s, at, be16(x)),
    ensures
        be16_value(s, at) == x,
{
    assert(be16(x)[0] == s[at] && be16(x)[1] == s[at + 1]);
}

/// What is written as four bytes is read back, wherever it stands.
pub proof fn be32_read_back(s: Seq<u8>, at: int, x: u32)
    requires
        bytes_at(s, at, be32(x)),
    ensures
        be32_value(s, at) == x,
{
    let b = be32(x);
    assert(b[0] == s[at] && b[1] == s[at + 1] && b[2] == s[at + 2] && b[3] == s[at + 3]);
}

/// What is written as eight bytes is read back, wherever it stands.
pub proof fn be64_read_back(s: Seq<u8>, at: int, x: u64)
    requires
        bytes_at(s, at, be64(x)),
    ensures
        be64_value(s, at) == x,
{
    let hi = (x / 0x1_0000_0000) as u32;
    let lo = (x % 0x1_0000_0000) as u32;
    assert forall|i: int| 0 <= i < 4 implies s[at + i] == #[trigger] be32(hi)[i] by {
        assert(be64(x)[i] == be32(hi)[i]);
    }
    assert forall|i: int| 0 <= i < 4 implies s[at + 4 + i] == #[trigger] be32(lo)[i] by {
        assert(be64(x)[4 + i] == be32(lo)[i]);
    }
    be32_read_back(s, at, hi);
    be32_read_back(s, at + 4, lo);
}

/// What is written as two bytes is read back, wherever it stands.
pub proof fn le16_read_back(s: Seq<u8>, at: int, x: u16)
    requires
        bytes_at(s, at, le16(x)),
    ensures
        le16_value(s, at) == x,
{
    assert(le16(x)[0] == s[at] && le16(x)[1] == s[at + 1]);
}

/// Adds bytes at the end.
pub fn push_bytes(buf: &mut Vec<u8>, part: &[u8])
    ensures
        final(buf)@ == old(buf)@ + part@,
{
    let ghost before = buf@;
    buf.extend_from_slice(part);
    assert(buf@ =~= before + part@);
}

/// Adds `n` zero bytes at the end.
pub fn push_zeros(buf: &mut Vec<u8>, n: usize)
    ensures
        final(buf)@ == old(buf)@ + zeros(n as nat),
{
    let ghost before = buf@;
    for i in 0..n
        invariant
            buf@ == before + zeros(i as nat),
    {
        buf.push(0);
        assert(buf@ =~= before + zeros((i + 1) as nat));
    }
}

/// `n` zero bytes.
pub open spec fn zeros(n: nat) -> Seq<u8> {
    Seq::new(n, |i: int| 0u8)
}

/// Adds two bytes, the most significant first.
pub fn push_be16(buf: &mut Vec<u8>, x: u16)
    ensures
        final(buf)@ == old(buf)@ + be16(x),
{
    let ghost before = buf@;
    buf.push((x / 0x100) as u8);
    buf.push((x % 0x100) as u8);
    assert(buf@ =~= before + be16(x));
}

/// Adds four bytes, the most significant first.
pub fn push_be32(buf: &mut Vec<u8>, x: u32)
    ensures
        final(buf)@ == old(buf)@ + be32(x),
{
    let ghost before = buf@;
    buf.push((x / 0x100_0000) as u8);
    buf.push((x / 0x1_0000 % 0x100) as u8);
    buf.push((x / 0x100 % 0x100) as u8);
    buf.push((x % 0x100) as u8);
    assert(buf@ =~= before + be32(x));
}

/// Adds eight bytes, the most significant first.
pub fn push_be64(buf: &mut Vec<u8>, x: u64)
    ensures
        final(buf)@ == old(buf)@ + be64(x),
{
    let ghost before = buf@;
    push_be32(buf, (x / 0x1_0000_0000) as u32);
    push_be32(buf, (x % 0x1_0000_0000) as u32);
    assert(buf@ =~= before + be64(x));
}

/// Adds two bytes, the least significant first.
pub fn push_le16(buf: &mut Vec<u8>, x: u16)
    ensures
        final(buf)@ == old(buf)@ + le16(x),
{
    let ghost before = buf@;
    buf.push((x % 0x100) as u8);
    buf.push((x / 0x100) as u8);
    assert(buf@ =~= before + le16(x));
}

/// Adds four bytes, the least significant first.
pub fn push_le32(buf: &mut Vec<u8>, x: u32)
    ensures
        final(buf)@ == old(buf)@ + le32(x),
{
    let ghost before = buf@;
    buf.push((x % 0x100) as u8);
    buf.push((x / 0x100 % 0x100) as u8);
    buf.push((x / 0x1_0000 % 0x100) as u8);
    buf.push((x / 0x100_0000) as u8);
    assert(buf@ =~= before + le32(x));
}

/// The number in two bytes, the most significant first.
pub fn read_be16(s: &[u8], at: usize) -> (r: u16)
    requires
        at + 2 <= s.len(),
    ensures
        r == be16_value(s@, at as int),
{
    s[at] as u16 * 0x100 + s[at + 1] as u16
}

/// The number in four bytes, the most significant first.
pub fn read_be32(s: &[u8], at: usize) -> (r: u32)
    requires
        at + 4 <= s.len(),
    ensures
        r == be32_value(s@, at as int),
{
    s[at] as u32 * 0x100_0000 + s[at + 1] as u32 * 0x1_0000 + s[at + 2] as u32 * 0x100 + s[at
        + 3] as u32
}

/// The number in eight bytes, the most significant first.
pub fn read_be64(s: &[u8], at: usize) -> (r: u64)
    requires
        at + 8 <= s.len(),
    ensures
        r == be64_value(s@, at as int),
{
    read_be32(s, at) as u64 * 0x1_0000_0000 + read_be32(s, at + 4) as u64
}

/// The number in two bytes, the least significant first.
pub fn read_le16(s: &[u8], at: usize) -> (r: u16)
    requires
        at + 2 <= s.len(),
    ensures
        r == le16_value(s@, at as int),
{
    s[at] as u16 + s[at + 1] as u16 * 0x100
}

/// A copy of the bytes from `from` up to, but not including, `to`.
pub fn copy_range(s: &[u8], from: usize, to: usize) -> (r: Vec<u8>)
    requires
        from <= to <= s.len(),
    ensures
        r@ == s@.subrange(from as int, to as int),
{
    slice_to_vec(slice_subrange(s, from, to))
}

/// A copy of the bytes.
pub fn copy_bytes(s: &[u8]) -> (r: Vec<u8>)
    ensures
        r@ == s@,
{
    slice_to_vec(s)
}

/// Of a number in the order of the network the highest byte comes first and the lowest last; in
/// the other order it is the other way round.
pub proof fn order_of_bytes(x: u32, y: u16)
    ensures
        be32(x).len() == 4 && be16(y).len() == 2,
        be32(x)[0] == x / 0x100_0000 && be32(x)[3] == x % 0x100,
        be16(y)[0] == y / 0x100 && be16(y)[1] == y % 0x100,
        le32(x) == seq![be32(x)[3], be32(x)[2], be32(x)[1], be32(x)[0]],
        le16(y) == seq![be16(y)[1], be16(y)[0]],
        be64(x as u64) == seq![0u8, 0, 0, 0] + be32(x),
{
    assert(be64(x as u64) =~= seq![0u8, 0, 0, 0] + be32(x));
}

} // verus!
