//! The bytes that the control plane and the classifier exchange through the
//! kernel maps: little-endian integers, fixed-width names, keys of the
//! longest-prefix table and counter records.

use vstd::prelude::*;

verus! {

/// The two bytes of `x`, lowest first.
pub open spec fn le16(x: u16) -> Seq<u8> {
    seq![(x & 0xff) as u8, ((x >> 8) & 0xff) as u8]
}

/// The four bytes of `x`, lowest first.
pub open spec fn le32(x: u32) -> Seq<u8> {
    seq![
        (x & 0xff) as u8,
        ((x >> 8) & 0xff) as u8,
        ((x >> 16) & 0xff) as u8,
        ((x >> 24) & 0xff) as u8,
    ]
}

/// The eight bytes of `x`, lowest first.
pub open spec fn le64(x: u64) -> Seq<u8> {
    seq![
        (x & 0xff) as u8,
        ((x >> 8) & 0xff) as u8,
        ((x >> 16) & 0xff) as u8,
        ((x >> 24) & 0xff) as u8,
        ((x >> 32) & 0xff) as u8,
        ((x >> 40) & 0xff) as u8,
        ((x >> 48) & 0xff) as u8,
        ((x >> 56) & 0xff) as u8,
    ]
}

/// The number whose two bytes, lowest first, are at `at` in `s`.
pub open spec fn le16_at(s: Seq<u8>, at: int) -> u16
    recommends
        0 <= at,
        at + 2 <= s.len(),
{
    (s[at] as u16) | ((s[at + 1] as u16) << 8)
}

/// The number whose four bytes, lowest first, are at `at` in `s`.
pub open spec fn le32_at(s: Seq<u8>, at: int) -> u32
    recommends
        0 <= at,
        at + 4 <= s.len(),
{
    (s[at] as u32) | ((s[at + 1] as u32) << 8) | ((s[at + 2] as u32) << 16) | ((s[at + 3] as u32)
        << 24)
}

/// The number whose eight bytes, lowest first, are at `at` in `s`.
pub open spec fn le64_at(s: Seq<u8>, at: int) -> u64
    recommends
        0 <= at,
        at + 8 <= s.len(),
{
    (s[at] as u64) | ((s[at + 1] as u64) << 8) | ((s[at + 2] as u64) << 16) | ((s[at + 3] as u64)
        << 24) | ((s[at + 4] as u64) << 32) | ((s[at + 5] as u64) << 40) | ((s[at + 6] as u64)
        << 48) | ((s[at + 7] as u64) << 56)
}

/// `n` zero bytes.
pub open spec fn zeros(n: nat) -> Seq<u8> {
    Seq::new(n, |i: int| 0u8)
}

/// A field of `width` bytes that holds the first `width - 1` bytes of `name`
/// at most, and zeros after them: at least one.
pub open spec fn name_field(name: Seq<u8>, width: nat) -> Seq<u8>
    recommends
        width >= 1,
{
    let kept = if name.len() >= width {
        name.take(width - 1)
    } else {
        name
    };
    kept + zeros((width - kept.len()) as nat)
}

/// The mask that keeps the first `prefix_len` bits of an address.
pub open spec fn netmask(prefix_len: u32) -> u32
    recommends
        prefix_len <= 32,
{
    if prefix_len == 0 {
        0
    } else {
        0xffff_ffffu32 << ((32 - prefix_len) as u32)
    }
}

/// The key of the longest-prefix table for the network of `addr` with
/// `prefix_len` bits: the prefix length, then the address without the bits
/// beyond the prefix.
pub open spec fn prefix_key(addr: u32, prefix_len: u32) -> Seq<u8>
    recommends
        prefix_len <= 32,
{
    le32(prefix_len) + le32(addr & netmask(prefix_len))
}

/// Reading back what `le16` wrote gives the number.
pub proof fn lemma_le16_round_trip(x: u16)
    ensures
        le16_at(le16(x), 0) == x,
{
    assert(((x & 0xff) as u8 as u16) | ((((x >> 8) & 0xff) as u8 as u16) << 8) == x)
        by (bit_vector);
}

/// Reading back what `le32` wrote gives the number.
pub proof fn lemma_le32_round_trip(x: u32)
    ensures
        le32_at(le32(x), 0) == x,
{
    assert(((x & 0xff) as u8 as u32) | ((((x >> 8) & 0xff) as u8 as u32) << 8) | ((((x >> 16)
        & 0xff) as u8 as u32) << 16) | ((((x >> 24) & 0xff) as u8 as u32) << 24) == x)
        by (bit_vector);
}

/// Reading back what `le64` wrote gives the number.
pub proof fn lemma_le64_round_trip(x: u64)
    ensures
        le64_at(le64(x), 0) == x,
{
    assert(((x & 0xff) as u8 as u64) | ((((x >> 8) & 0xff) as u8 as u64) << 8) | ((((x >> 16)
        & 0xff) as u8 as u64) << 16) | ((((x >> 24) & 0xff) as u8 as u64) << 24) | ((((x >> 32)
        & 0xff) as u8 as u64) << 32) | ((((x >> 40) & 0xff) as u8 as u64) << 40) | ((((x >> 48)
        & 0xff) as u8 as u64) << 48) | ((((x >> 56) & 0xff) as u8 as u64) << 56) == x)
        by (bit_vector);
}

/// Eight zero bytes read as zero.
pub proof fn lemma_le64_of_zeros(s: Seq<u8>, at: int)
    requires
        0 <= at,
        at + 8 <= s.len(),
        forall|i: int| at <= i < at + 8 ==> s[i] == 0,
    ensures
        le64_at(s, at) == 0,
{
    assert((0u8 as u64) | ((0u8 as u64) << 8) | ((0u8 as u64) << 16) | ((0u8 as u64) << 24) | ((
    0u8 as u64) << 32) | ((0u8 as u64) << 40) | ((0u8 as u64) << 48) | ((0u8 as u64) << 56) == 0)
        by (bit_vector);
}

/// Two addresses that agree on their first `prefix_len` bits have one key.
pub proof fn lemma_prefix_key_masks(a: u32, b: u32, prefix_len: u32)
    requires
        prefix_len <= 32,
        a & netmask(prefix_len) == b & netmask(prefix_len),
    ensures
        prefix_key(a, prefix_len) == prefix_key(b, prefix_len),
{
}

/// The address in a key has no bit beyond the prefix, and masking it again
/// changes nothing.
pub proof fn lemma_netmask(addr: u32, prefix_len: u32)
    requires
        prefix_len <= 32,
    ensures
        (addr & netmask(prefix_len)) & !netmask(prefix_len) == 0,
        (addr & netmask(prefix_len)) & netmask(prefix_len) == addr & netmask(prefix_len),
        prefix_len == 32 ==> addr & netmask(prefix_len) == addr,
        prefix_len == 0 ==> addr & netmask(prefix_len) == 0,
{
    let m = netmask(prefix_len);
    assert((addr & m) & !m == 0) by (bit_vector);
    assert((addr & m) & m == addr & m) by (bit_vector);
    assert(addr & (0xffff_ffffu32 << 0u32) == addr) by (bit_vector);
    assert(addr & 0u32 == 0) by (bit_vector);
}

/// Appends the two bytes of `x`, lowest first.
pub fn push_le16(out: &mut Vec<u8>, x: u16)
    ensures
        final(out)@ == old(out)@ + le16(x),
{
    out.push((x & 0xff) as u8);
    out.push(((x >> 8) & 0xff) as u8);
    assert(final(out)@ =~= old(out)@ + le16(x));
}

/// Appends the four bytes of `x`, lowest first.
pub fn push_le32(out: &mut Vec<u8>, x: u32)
    ensures
        final(out)@ == old(out)@ + le32(x),
{
    out.push((x & 0xff) as u8);
    out.push(((x >> 8) & 0xff) as u8);
    out.push(((x >> 16) & 0xff) as u8);
    out.push(((x >> 24) & 0xff) as u8);
    assert(final(out)@ =~= old(out)@ + le32(x));
}

/// Appends the eight bytes of `x`, lowest first.
pub fn push_le64(out: &mut Vec<u8>, x: u64)
    ensures
        final(out)@ == old(out)@ + le64(x),
{
    out.push((x & 0xff) as u8);
    out.push(((x >> 8) & 0xff) as u8);
    out.push(((x >> 16) & 0xff) as u8);
    out.push(((x >> 24) & 0xff) as u8);
    out.push(((x >> 32) & 0xff) as u8);
    out.push(((x >> 40) & 0xff) as u8);
    out.push(((x >> 48) & 0xff) as u8);
    out.push(((x >> 56) & 0xff) as u8);
    assert(final(out)@ =~= old(out)@ + le64(x));
}

/// Appends `n` zero bytes.
pub fn push_zeros(out: &mut Vec<u8>, n: usize)
    ensures
        final(out)@ == old(out)@ + zeros(n as nat),
{
    let mut i: usize = 0;
    while i < n
        invariant
            i <= n,
            out@ == old(out)@ + zeros(i as nat),
        decreases n - i,
    {
        out.push(0);
        assert(out@ =~= old(out)@ + zeros((i + 1) as nat));
        i += 1;
    }
}

/// Appends a field of `width` bytes that holds the first `width - 1` bytes
/// of `name` at most, and zeros after them.
pub fn push_name_field(out: &mut Vec<u8>, name: &[u8], width: usize)
    requires
        width >= 1,
    ensures
        final(out)@ == old(out)@ + name_field(name@, width as nat),
{
    let keep: usize = if name.len() >= width {
        width - 1
    } else {
        name.len()
    };
    let mut i: usize = 0;
    while i < keep
        invariant
            i <= keep <= name.len(),
            out@ == old(out)@ + name@.take(i as int),
        decreases keep - i,
    {
        out.push(name[i]);
        assert(out@ =~= old(out)@ + name@.take(i + 1));
        i += 1;
    }
    push_zeros(out, width - keep);
    assert(name@.len() < width ==> name@.take(keep as int) == name@);
    assert(final(out)@ =~= old(out)@ + name_field(name@, width as nat));
}

/// The number whose two bytes, lowest first, are at `at` in `bytes`.
pub fn read_le16(bytes: &[u8], at: usize) -> (r: u16)
    requires
        at + 2 <= bytes.len(),
    ensures
        r == le16_at(bytes@, at as int),
{
    (bytes[at] as u16) | ((bytes[at + 1] as u16) << 8)
}

/// The number whose four bytes, lowest first, are at `at` in `bytes`.
pub fn read_le32(bytes: &[u8], at: usize) -> (r: u32)
    requires
        at + 4 <= bytes.len(),
    ensures
        r == le32_at(bytes@, at as int),
{
    (bytes[at] as u32) | ((bytes[at + 1] as u32) << 8) | ((bytes[at + 2] as u32) << 16) | ((bytes[at
        + 3] as u32) << 24)
}

/// The number whose eight bytes, lowest first, are at `at` in `bytes`.
pub fn read_le64(bytes: &[u8], at: usize) -> (r: u64)
    requires
        at + 8 <= bytes.len(),
    ensures
        r == le64_at(bytes@, at as int),
{
    (bytes[at] as u64) | ((bytes[at + 1] as u64) << 8) | ((bytes[at + 2] as u64) << 16) | ((bytes[at
        + 3] as u64) << 24) | ((bytes[at + 4] as u64) << 32) | ((bytes[at + 5] as u64) << 40) | ((
    bytes[at + 6] as u64) << 48) | ((bytes[at + 7] as u64) << 56)
}

/// The mask that keeps the first `prefix_len` bits of an address.
pub fn mask_of(prefix_len: u32) -> (r: u32)
    requires
        prefix_len <= 32,
    ensures
        r == netmask(prefix_len),
{
    if prefix_len == 0 {
        0
    } else {
        0xffff_ffffu32 << (32 - prefix_len)
    }
}

} // verus!
