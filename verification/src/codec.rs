//! Fixed-width integers as bytes: probe records in the host's byte order,
//! either way round, and the big-endian length prefix of the daemon
//! protocol.

use vstd::prelude::*;

verus! {

/// The two bytes of `n`, least significant first.
pub open spec fn le16(n: u16) -> Seq<u8> {
    seq![(n & 0xff) as u8, ((n >> 8u16) & 0xff) as u8]
}

/// The four bytes of `n`, least significant first.
pub open spec fn le32(n: u32) -> Seq<u8> {
    seq![
        (n & 0xff) as u8,
        ((n >> 8u32) & 0xff) as u8,
        ((n >> 16u32) & 0xff) as u8,
        ((n >> 24u32) & 0xff) as u8,
    ]
}

/// The eight bytes of `n`, least significant first.
pub open spec fn le64(n: u64) -> Seq<u8> {
    seq![
        (n & 0xff) as u8,
        ((n >> 8u64) & 0xff) as u8,
        ((n >> 16u64) & 0xff) as u8,
        ((n >> 24u64) & 0xff) as u8,
        ((n >> 32u64) & 0xff) as u8,
        ((n >> 40u64) & 0xff) as u8,
        ((n >> 48u64) & 0xff) as u8,
        ((n >> 56u64) & 0xff) as u8,
    ]
}

/// The four bytes of `n`, most significant first (network byte order).
pub open spec fn be32(n: u32) -> Seq<u8> {
    seq![
        ((n >> 24u32) & 0xff) as u8,
        ((n >> 16u32) & 0xff) as u8,
        ((n >> 8u32) & 0xff) as u8,
        (n & 0xff) as u8,
    ]
}

/// The number whose little-endian bytes are `s[off..off + 2]`.
pub open spec fn from_le16(s: Seq<u8>, off: int) -> u16 {
    (s[off] as u16) | ((s[off + 1] as u16) << 8u16)
}

/// The number whose little-endian bytes are `s[off..off + 4]`.
pub open spec fn from_le32(s: Seq<u8>, off: int) -> u32 {
    (s[off] as u32) | ((s[off + 1] as u32) << 8u32) | ((s[off + 2] as u32) << 16u32) | ((
    s[off + 3] as u32) << 24u32)
}

/// The number whose little-endian bytes are `s[off..off + 8]`.
pub open spec fn from_le64(s: Seq<u8>, off: int) -> u64 {
    (s[off] as u64) | ((s[off + 1] as u64) << 8u64) | ((s[off + 2] as u64) << 16u64) | ((
    s[off + 3] as u64) << 24u64) | ((s[off + 4] as u64) << 32u64) | ((s[off + 5] as u64)
        << 40u64) | ((s[off + 6] as u64) << 48u64) | ((s[off + 7] as u64) << 56u64)
}

/// The number whose big-endian bytes are `s[off..off + 4]`.
pub open spec fn from_be32(s: Seq<u8>, off: int) -> u32 {
    ((s[off] as u32) << 24u32) | ((s[off + 1] as u32) << 16u32) | ((s[off + 2] as u32) << 8u32)
        | (s[off + 3] as u32)
}

pub proof fn lemma_le16_roundtrip(n: u16)
    ensures
        from_le16(le16(n), 0) == n,
{
    let s = le16(n);
    let (a, b) = (s[0], s[1]);
    assert(a == (n & 0xff) as u8 && b == ((n >> 8u16) & 0xff) as u8);
    assert(a == (n & 0xff) as u8 && b == ((n >> 8u16) & 0xff) as u8 ==> (a as u16) | ((
    b as u16) << 8u16) == n) by (bit_vector);
}

pub proof fn lemma_le32_roundtrip(n: u32)
    ensures
        from_le32(le32(n), 0) == n,
{
    let s = le32(n);
    let (a, b, c, d) = (s[0], s[1], s[2], s[3]);
    assert(a == (n & 0xff) as u8 && b == ((n >> 8u32) & 0xff) as u8 && c == ((n >> 16u32)
        & 0xff) as u8 && d == ((n >> 24u32) & 0xff) as u8 ==> (a as u32) | ((b as u32) << 8u32)
        | ((c as u32) << 16u32) | ((d as u32) << 24u32) == n) by (bit_vector);
}

pub proof fn lemma_le64_roundtrip(n: u64)
    ensures
        from_le64(le64(n), 0) == n,
{
    let s = le64(n);
    let (a, b, c, d, e, f, g, h) = (s[0], s[1], s[2], s[3], s[4], s[5], s[6], s[7]);
    assert(a == (n & 0xff) as u8 && b == ((n >> 8u64) & 0xff) as u8 && c == ((n >> 16u64)
        & 0xff) as u8 && d == ((n >> 24u64) & 0xff) as u8 && e == ((n >> 32u64) & 0xff) as u8
        && f == ((n >> 40u64) & 0xff) as u8 && g == ((n >> 48u64) & 0xff) as u8 && h == ((n
        >> 56u64) & 0xff) as u8 ==> (a as u64) | ((b as u64) << 8u64) | ((c as u64) << 16u64)
        | ((d as u64) << 24u64) | ((e as u64) << 32u64) | ((f as u64) << 40u64) | ((g as u64)
        << 48u64) | ((h as u64) << 56u64) == n) by (bit_vector);
}

pub proof fn lemma_be32_roundtrip(n: u32)
    ensures
        from_be32(be32(n), 0) == n,
{
    let s = be32(n);
    let (a, b, c, d) = (s[0], s[1], s[2], s[3]);
    assert(a == ((n >> 24u32) & 0xff) as u8 && b == ((n >> 16u32) & 0xff) as u8 && c == ((n
        >> 8u32) & 0xff) as u8 && d == (n & 0xff) as u8 ==> ((a as u32) << 24u32) | ((
    b as u32) << 16u32) | ((c as u32) << 8u32) | (d as u32) == n) by (bit_vector);
}

/// Reading two bytes back gives the bytes that were there.
pub proof fn lemma_from_le16_bytes(s: Seq<u8>, off: int)
    requires
        0 <= off,
        off + 2 <= s.len(),
    ensures
        le16(from_le16(s, off)) == s.subrange(off, off + 2),
{
    let (a, b) = (s[off], s[off + 1]);
    let n = from_le16(s, off);
    assert(n == (a as u16) | ((b as u16) << 8u16) ==> (n & 0xff) as u8 == a && ((n >> 8u16)
        & 0xff) as u8 == b) by (bit_vector);
    assert(le16(n) =~= s.subrange(off, off + 2));
}

pub proof fn lemma_from_le32_bytes(s: Seq<u8>, off: int)
    requires
        0 <= off,
        off + 4 <= s.len(),
    ensures
        le32(from_le32(s, off)) == s.subrange(off, off + 4),
{
    let (a, b, c, d) = (s[off], s[off + 1], s[off + 2], s[off + 3]);
    let n = from_le32(s, off);
    assert(n == (a as u32) | ((b as u32) << 8u32) | ((c as u32) << 16u32) | ((d as u32)
        << 24u32) ==> (n & 0xff) as u8 == a && ((n >> 8u32) & 0xff) as u8 == b && ((n >> 16u32)
        & 0xff) as u8 == c && ((n >> 24u32) & 0xff) as u8 == d) by (bit_vector);
    assert(le32(n) =~= s.subrange(off, off + 4));
}

pub proof fn lemma_from_le64_bytes(s: Seq<u8>, off: int)
    requires
        0 <= off,
        off + 8 <= s.len(),
    ensures
        le64(from_le64(s, off)) == s.subrange(off, off + 8),
{
    let (a, b, c, d) = (s[off], s[off + 1], s[off + 2], s[off + 3]);
    let (e, f, g, h) = (s[off + 4], s[off + 5], s[off + 6], s[off + 7]);
    let n = from_le64(s, off);
    assert(n == (a as u64) | ((b as u64) << 8u64) | ((c as u64) << 16u64) | ((d as u64)
        << 24u64) | ((e as u64) << 32u64) | ((f as u64) << 40u64) | ((g as u64) << 48u64) | ((
    h as u64) << 56u64) ==> (n & 0xff) as u8 == a && ((n >> 8u64) & 0xff) as u8 == b && ((n
        >> 16u64) & 0xff) as u8 == c && ((n >> 24u64) & 0xff) as u8 == d && ((n >> 32u64)
        & 0xff) as u8 == e && ((n >> 40u64) & 0xff) as u8 == f && ((n >> 48u64) & 0xff) as u8
        == g && ((n >> 56u64) & 0xff) as u8 == h) by (bit_vector);
    assert(le64(n) =~= s.subrange(off, off + 8));
}

pub proof fn lemma_from_be32_bytes(s: Seq<u8>, off: int)
    requires
        0 <= off,
        off + 4 <= s.len(),
    ensures
        be32(from_be32(s, off)) == s.subrange(off, off + 4),
{
    let (a, b, c, d) = (s[off], s[off + 1], s[off + 2], s[off + 3]);
    let n = from_be32(s, off);
    assert(n == ((a as u32) << 24u32) | ((b as u32) << 16u32) | ((c as u32) << 8u32) | (
    d as u32) ==> ((n >> 24u32) & 0xff) as u8 == a && ((n >> 16u32) & 0xff) as u8 == b && ((n
        >> 8u32) & 0xff) as u8 == c && (n & 0xff) as u8 == d) by (bit_vector);
    assert(be32(n) =~= s.subrange(off, off + 4));
}

pub fn read_le16(s: &[u8], off: usize) -> (n: u16)
    requires
        off + 2 <= s@.len(),
    ensures
        n == from_le16(s@, off as int),
{
    (s[off] as u16) | ((s[off + 1] as u16) << 8u16)
}

pub fn read_le32(s: &[u8], off: usize) -> (n: u32)
    requires
        off + 4 <= s@.len(),
    ensures
        n == from_le32(s@, off as int),
{
    (s[off] as u32) | ((s[off + 1] as u32) << 8u32) | ((s[off + 2] as u32) << 16u32) | ((
    s[off + 3] as u32) << 24u32)
}

pub fn read_le64(s: &[u8], off: usize) -> (n: u64)
    requires
        off + 8 <= s@.len(),
    ensures
        n == from_le64(s@, off as int),
{
    (s[off] as u64) | ((s[off + 1] as u64) << 8u64) | ((s[off + 2] as u64) << 16u64) | ((
    s[off + 3] as u64) << 24u64) | ((s[off + 4] as u64) << 32u64) | ((s[off + 5] as u64)
        << 40u64) | ((s[off + 6] as u64) << 48u64) | ((s[off + 7] as u64) << 56u64)
}

pub fn read_be32(s: &[u8], off: usize) -> (n: u32)
    requires
        off + 4 <= s@.len(),
    ensures
        n == from_be32(s@, off as int),
{
    ((s[off] as u32) << 24u32) | ((s[off + 1] as u32) << 16u32) | ((s[off + 2] as u32) << 8u32)
        | (s[off + 3] as u32)
}

pub fn push_le16(v: &mut Vec<u8>, n: u16)
    ensures
        final(v)@ == old(v)@ + le16(n),
{
    v.push((n & 0xff) as u8);
    v.push(((n >> 8u16) & 0xff) as u8);
    assert(final(v)@ =~= old(v)@ + le16(n));
}

pub fn push_le32(v: &mut Vec<u8>, n: u32)
    ensures
        final(v)@ == old(v)@ + le32(n),
{
    v.push((n & 0xff) as u8);
    v.push(((n >> 8u32) & 0xff) as u8);
    v.push(((n >> 16u32) & 0xff) as u8);
    v.push(((n >> 24u32) & 0xff) as u8);
    assert(final(v)@ =~= old(v)@ + le32(n));
}

pub fn push_le64(v: &mut Vec<u8>, n: u64)
    ensures
        final(v)@ == old(v)@ + le64(n),
{
    v.push((n & 0xff) as u8);
    v.push(((n >> 8u64) & 0xff) as u8);
    v.push(((n >> 16u64) & 0xff) as u8);
    v.push(((n >> 24u64) & 0xff) as u8);
    v.push(((n >> 32u64) & 0xff) as u8);
    v.push(((n >> 40u64) & 0xff) as u8);
    v.push(((n >> 48u64) & 0xff) as u8);
    v.push(((n >> 56u64) & 0xff) as u8);
    assert(final(v)@ =~= old(v)@ + le64(n));
}

pub fn push_be32(v: &mut Vec<u8>, n: u32)
    ensures
        final(v)@ == old(v)@ + be32(n),
{
    v.push(((n >> 24u32) & 0xff) as u8);
    v.push(((n >> 16u32) & 0xff) as u8);
    v.push(((n >> 8u32) & 0xff) as u8);
    v.push((n & 0xff) as u8);
    assert(final(v)@ =~= old(v)@ + be32(n));
}

/// The order a machine lays the bytes of a number out in.
#[derive(Clone, Copy, Debug, PartialEq, Eq, Structural)]
pub enum ByteOrder {
    /// Least significant byte first (x86-64, little-endian AArch64).
    Little,
    /// Most significant byte first.
    Big,
}

/// The two bytes of `n`, most significant first.
pub open spec fn be16(n: u16) -> Seq<u8> {
    seq![((n >> 8u16) & 0xff) as u8, (n & 0xff) as u8]
}

/// The eight bytes of `n`, most significant first.
pub open spec fn be64(n: u64) -> Seq<u8> {
    seq![
        ((n >> 56u64) & 0xff) as u8,
        ((n >> 48u64) & 0xff) as u8,
        ((n >> 40u64) & 0xff) as u8,
        ((n >> 32u64) & 0xff) as u8,
        ((n >> 24u64) & 0xff) as u8,
        ((n >> 16u64) & 0xff) as u8,
        ((n >> 8u64) & 0xff) as u8,
        (n & 0xff) as u8,
    ]
}

/// The number whose big-endian bytes are `s[off..off + 2]`.
pub open spec fn from_be16(s: Seq<u8>, off: int) -> u16 {
    ((s[off] as u16) << 8u16) | (s[off + 1] as u16)
}

/// The number whose big-endian bytes are `s[off..off + 8]`.
pub open spec fn from_be64(s: Seq<u8>, off: int) -> u64 {
    ((s[off] as u64) << 56u64) | ((s[off + 1] as u64) << 48u64) | ((s[off + 2] as u64) << 40u64)
        | ((s[off + 3] as u64) << 32u64) | ((s[off + 4] as u64) << 24u64) | ((s[off + 5] as u64)
        << 16u64) | ((s[off + 6] as u64) << 8u64) | (s[off + 7] as u64)
}

/// The bytes of `n` in byte order `o`.
pub open spec fn enc16(n: u16, o: ByteOrder) -> Seq<u8> {
    match o {
        ByteOrder::Little => le16(n),
        ByteOrder::Big => be16(n),
    }
}

pub open spec fn enc32(n: u32, o: ByteOrder) -> Seq<u8> {
    match o {
        ByteOrder::Little => le32(n),
        ByteOrder::Big => be32(n),
    }
}

pub open spec fn enc64(n: u64, o: ByteOrder) -> Seq<u8> {
    match o {
        ByteOrder::Little => le64(n),
        ByteOrder::Big => be64(n),
    }
}

/// The number whose bytes in order `o` are `s[off..off + 2]`.
pub open spec fn dec16(s: Seq<u8>, off: int, o: ByteOrder) -> u16 {
    match o {
        ByteOrder::Little => from_le16(s, off),
        ByteOrder::Big => from_be16(s, off),
    }
}

pub open spec fn dec32(s: Seq<u8>, off: int, o: ByteOrder) -> u32 {
    match o {
        ByteOrder::Little => from_le32(s, off),
        ByteOrder::Big => from_be32(s, off),
    }
}

pub open spec fn dec64(s: Seq<u8>, off: int, o: ByteOrder) -> u64 {
    match o {
        ByteOrder::Little => from_le64(s, off),
        ByteOrder::Big => from_be64(s, off),
    }
}

pub proof fn lemma_be16_roundtrip(n: u16)
    ensures
        from_be16(be16(n), 0) == n,
{
    let s = be16(n);
    let (a, b) = (s[0], s[1]);
    assert(a == ((n >> 8u16) & 0xff) as u8 && b == (n & 0xff) as u8 ==> ((a as u16) << 8u16) | (
    b as u16) == n) by (bit_vector);
}

pub proof fn lemma_be64_roundtrip(n: u64)
    ensures
        from_be64(be64(n), 0) == n,
{
    let s = be64(n);
    let (a, b, c, d, e, f, g, h) = (s[0], s[1], s[2], s[3], s[4], s[5], s[6], s[7]);
    assert(a == ((n >> 56u64) & 0xff) as u8 && b == ((n >> 48u64) & 0xff) as u8 && c == ((n
        >> 40u64) & 0xff) as u8 && d == ((n >> 32u64) & 0xff) as u8 && e == ((n >> 24u64)
        & 0xff) as u8 && f == ((n >> 16u64) & 0xff) as u8 && g == ((n >> 8u64) & 0xff) as u8
        && h == (n & 0xff) as u8 ==> ((a as u64) << 56u64) | ((b as u64) << 48u64) | ((
    c as u64) << 40u64) | ((d as u64) << 32u64) | ((e as u64) << 24u64) | ((f as u64)
        << 16u64) | ((g as u64) << 8u64) | (h as u64) == n) by (bit_vector);
}

pub proof fn lemma_from_be16_bytes(s: Seq<u8>, off: int)
    requires
        0 <= off,
        off + 2 <= s.len(),
    ensures
        be16(from_be16(s, off)) == s.subrange(off, off + 2),
{
    let (a, b) = (s[off], s[off + 1]);
    let n = from_be16(s, off);
    assert(n == ((a as u16) << 8u16) | (b as u16) ==> ((n >> 8u16) & 0xff) as u8 == a && (n
        & 0xff) as u8 == b) by (bit_vector);
    assert(be16(n) =~= s.subrange(off, off + 2));
}

pub proof fn lemma_from_be64_bytes(s: Seq<u8>, off: int)
    requires
        0 <= off,
        off + 8 <= s.len(),
    ensures
        be64(from_be64(s, off)) == s.subrange(off, off + 8),
{
    let (a, b, c, d) = (s[off], s[off + 1], s[off + 2], s[off + 3]);
    let (e, f, g, h) = (s[off + 4], s[off + 5], s[off + 6], s[off + 7]);
    let n = from_be64(s, off);
    assert(n == ((a as u64) << 56u64) | ((b as u64) << 48u64) | ((c as u64) << 40u64) | ((
    d as u64) << 32u64) | ((e as u64) << 24u64) | ((f as u64) << 16u64) | ((g as u64) << 8u64)
        | (h as u64) ==> ((n >> 56u64) & 0xff) as u8 == a && ((n >> 48u64) & 0xff) as u8 == b
        && ((n >> 40u64) & 0xff) as u8 == c && ((n >> 32u64) & 0xff) as u8 == d && ((n
        >> 24u64) & 0xff) as u8 == e && ((n >> 16u64) & 0xff) as u8 == f && ((n >> 8u64) & 0xff)
        as u8 == g && (n & 0xff) as u8 == h) by (bit_vector);
    assert(be64(n) =~= s.subrange(off, off + 8));
}

/// Numbers written in either order read back as themselves.
pub proof fn lemma_enc_roundtrip(o: ByteOrder, a: u16, b: u32, c: u64)
    ensures
        dec16(enc16(a, o), 0, o) == a,
        dec32(enc32(b, o), 0, o) == b,
        dec64(enc64(c, o), 0, o) == c,
        enc16(a, o).len() == 2,
        enc32(b, o).len() == 4,
        enc64(c, o).len() == 8,
{
    lemma_le16_roundtrip(a);
    lemma_le32_roundtrip(b);
    lemma_le64_roundtrip(c);
    lemma_be16_roundtrip(a);
    lemma_be32_roundtrip(b);
    lemma_be64_roundtrip(c);
}

/// Bytes read as a number in either order are that number's bytes.
pub proof fn lemma_dec16_bytes(s: Seq<u8>, off: int, o: ByteOrder)
    requires
        0 <= off,
        off + 2 <= s.len(),
    ensures
        enc16(dec16(s, off, o), o) == s.subrange(off, off + 2),
{
    lemma_from_le16_bytes(s, off);
    lemma_from_be16_bytes(s, off);
}

pub proof fn lemma_dec32_bytes(s: Seq<u8>, off: int, o: ByteOrder)
    requires
        0 <= off,
        off + 4 <= s.len(),
    ensures
        enc32(dec32(s, off, o), o) == s.subrange(off, off + 4),
{
    lemma_from_le32_bytes(s, off);
    lemma_from_be32_bytes(s, off);
}

pub proof fn lemma_dec64_bytes(s: Seq<u8>, off: int, o: ByteOrder)
    requires
        0 <= off,
        off + 8 <= s.len(),
    ensures
        enc64(dec64(s, off, o), o) == s.subrange(off, off + 8),
{
    lemma_from_le64_bytes(s, off);
    lemma_from_be64_bytes(s, off);
}

pub fn read_be16(s: &[u8], off: usize) -> (n: u16)
    requires
        off + 2 <= s@.len(),
    ensures
        n == from_be16(s@, off as int),
{
    ((s[off] as u16) << 8u16) | (s[off + 1] as u16)
}

pub fn read_be64(s: &[u8], off: usize) -> (n: u64)
    requires
        off + 8 <= s@.len(),
    ensures
        n == from_be64(s@, off as int),
{
    ((s[off] as u64) << 56u64) | ((s[off + 1] as u64) << 48u64) | ((s[off + 2] as u64) << 40u64)
        | ((s[off + 3] as u64) << 32u64) | ((s[off + 4] as u64) << 24u64) | ((s[off + 5] as u64)
        << 16u64) | ((s[off + 6] as u64) << 8u64) | (s[off + 7] as u64)
}

/// Reads the number whose bytes in order `o` are `s[off..off + 2]`.
pub fn read16(s: &[u8], off: usize, o: ByteOrder) -> (n: u16)
    requires
        off + 2 <= s@.len(),
    ensures
        n == dec16(s@, off as int, o),
{
    match o {
        ByteOrder::Little => read_le16(s, off),
        ByteOrder::Big => read_be16(s, off),
    }
}

pub fn read32(s: &[u8], off: usize, o: ByteOrder) -> (n: u32)
    requires
        off + 4 <= s@.len(),
    ensures
        n == dec32(s@, off as int, o),
{
    match o {
        ByteOrder::Little => read_le32(s, off),
        ByteOrder::Big => read_be32(s, off),
    }
}

pub fn read64(s: &[u8], off: usize, o: ByteOrder) -> (n: u64)
    requires
        off + 8 <= s@.len(),
    ensures
        n == dec64(s@, off as int, o),
{
    match o {
        ByteOrder::Little => read_le64(s, off),
        ByteOrder::Big => read_be64(s, off),
    }
}

pub fn push_be16(v: &mut Vec<u8>, n: u16)
    ensures
        final(v)@ == old(v)@ + be16(n),
{
    v.push(((n >> 8u16) & 0xff) as u8);
    v.push((n & 0xff) as u8);
    assert(final(v)@ =~= old(v)@ + be16(n));
}

pub fn push_be64(v: &mut Vec<u8>, n: u64)
    ensures
        final(v)@ == old(v)@ + be64(n),
{
    v.push(((n >> 56u64) & 0xff) as u8);
    v.push(((n >> 48u64) & 0xff) as u8);
    v.push(((n >> 40u64) & 0xff) as u8);
    v.push(((n >> 32u64) & 0xff) as u8);
    v.push(((n >> 24u64) & 0xff) as u8);
    v.push(((n >> 16u64) & 0xff) as u8);
    v.push(((n >> 8u64) & 0xff) as u8);
    v.push((n & 0xff) as u8);
    assert(final(v)@ =~= old(v)@ + be64(n));
}

/// Appends the bytes of `n` in order `o`.
pub fn push16(v: &mut Vec<u8>, n: u16, o: ByteOrder)
    ensures
        final(v)@ == old(v)@ + enc16(n, o),
{
    match o {
        ByteOrder::Little => push_le16(v, n),
        ByteOrder::Big => push_be16(v, n),
    }
}

pub fn push32(v: &mut Vec<u8>, n: u32, o: ByteOrder)
    ensures
        final(v)@ == old(v)@ + enc32(n, o),
{
    match o {
        ByteOrder::Little => push_le32(v, n),
        ByteOrder::Big => push_be32(v, n),
    }
}

pub fn push64(v: &mut Vec<u8>, n: u64, o: ByteOrder)
    ensures
        final(v)@ == old(v)@ + enc64(n, o),
{
    match o {
        ByteOrder::Little => push_le64(v, n),
        ByteOrder::Big => push_be64(v, n),
    }
}

} // verus!
