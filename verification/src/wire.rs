//! Big-endian byte encodings and the small vector helpers every packet builder uses.

use vstd::prelude::*;

verus! {

/// The two bytes of `v`, most significant first.
pub open spec fn be16(v: u16) -> Seq<u8> {
    seq![(v / 0x100) as u8, (v % 0x100) as u8]
}

/// The four bytes of `v`, most significant first.
pub open spec fn be32(v: u32) -> Seq<u8> {
    seq![
        (v / 0x100_0000) as u8,
        (v / 0x1_0000 % 0x100) as u8,
        (v / 0x100 % 0x100) as u8,
        (v % 0x100) as u8,
    ]
}

/// The eight bytes of `v`, most significant first.
pub open spec fn be64(v: u64) -> Seq<u8> {
    be32((v / 0x1_0000_0000) as u32) + be32((v % 0x1_0000_0000) as u32)
}

/// `n` zero bytes.
pub open spec fn zeros(n: nat) -> Seq<u8> {
    Seq::new(n, |i: int| 0u8)
}

/// The 16-bit value whose big-endian encoding starts at `at`.
pub open spec fn read_be16(bytes: Seq<u8>, at: int) -> int {
    bytes[at] as int * 0x100 + bytes[at + 1] as int
}

/// The 32-bit value whose big-endian encoding starts at `at`.
pub open spec fn read_be32(bytes: Seq<u8>, at: int) -> int {
    bytes[at] as int * 0x100_0000 + bytes[at + 1] as int * 0x1_0000 + bytes[at + 2] as int * 0x100
        + bytes[at + 3] as int
}

/// Reading back what `be16` wrote gives the value.
pub proof fn lemma_read_be16(prefix: Seq<u8>, v: u16, suffix: Seq<u8>)
    ensures
        read_be16(prefix + be16(v) + suffix, prefix.len() as int) == v,
{
}

/// The four bytes of `be32` weigh in at the value they encode.
pub proof fn lemma_be32_value(v: u32)
    ensures
        (v / 0x100_0000) * 0x100_0000 + (v / 0x1_0000 % 0x100) * 0x1_0000 + (v / 0x100 % 0x100)
            * 0x100 + v % 0x100 == v,
{
    let a = v / 0x100_0000;
    let r = v % 0x100_0000;
    let b = r / 0x1_0000;
    let r2 = r % 0x1_0000;
    assert(v / 0x1_0000 % 0x100 == b) by (bit_vector)
        requires
            b == v % 0x100_0000 / 0x1_0000,
    ;
    assert(v / 0x100 % 0x100 == r2 / 0x100) by (bit_vector)
        requires
            r2 == v % 0x100_0000 % 0x1_0000,
    ;
    assert(v % 0x100 == r2 % 0x100) by (bit_vector)
        requires
            r2 == v % 0x100_0000 % 0x1_0000,
    ;
}

/// Reading back what `be32` wrote gives the value.
pub proof fn lemma_read_be32(prefix: Seq<u8>, v: u32, suffix: Seq<u8>)
    ensures
        read_be32(prefix + be32(v) + suffix, prefix.len() as int) == v,
{
    lemma_be32_value(v);
    let all = prefix + be32(v) + suffix;
    let at = prefix.len() as int;
    assert(all[at] == (v / 0x100_0000) as u8);
    assert(all[at + 1] == (v / 0x1_0000 % 0x100) as u8);
    assert(all[at + 2] == (v / 0x100 % 0x100) as u8);
    assert(all[at + 3] == (v % 0x100) as u8);
}

/// Appends the big-endian encoding of a 16-bit value.
pub fn push_be16(out: &mut Vec<u8>, v: u16)
    ensures
        final(out)@ == old(out)@ + be16(v),
{
    out.push((v / 0x100) as u8);
    out.push((v % 0x100) as u8);
    assert(out@ =~= old(out)@ + be16(v));
}

/// Appends the big-endian encoding of a 32-bit value.
pub fn push_be32(out: &mut Vec<u8>, v: u32)
    ensures
        final(out)@ == old(out)@ + be32(v),
{
    out.push((v / 0x100_0000) as u8);
    out.push((v / 0x1_0000 % 0x100) as u8);
    out.push((v / 0x100 % 0x100) as u8);
    out.push((v % 0x100) as u8);
    assert(out@ =~= old(out)@ + be32(v));
}

/// Appends the big-endian encoding of a 64-bit value.
pub fn push_be64(out: &mut Vec<u8>, v: u64)
    ensures
        final(out)@ == old(out)@ + be64(v),
{
    push_be32(out, (v / 0x1_0000_0000) as u32);
    push_be32(out, (v % 0x1_0000_0000) as u32);
    assert(out@ =~= old(out)@ + be64(v));
}

/// Appends `n` zero bytes.
pub fn push_zeros(out: &mut Vec<u8>, n: usize)
    ensures
        final(out)@ == old(out)@ + zeros(n as nat),
{
    let mut i: usize = 0;
    while i < n
        invariant
            i <= n,
            out@ == old(out)@ + zeros(i as nat),
        decreases n - i,
    {
        out.push(0u8);
        i = i + 1;
        assert(out@ =~= old(out)@ + zeros(i as nat));
    }
}

/// Appends a copy of `bytes`.
pub fn push_bytes(out: &mut Vec<u8>, bytes: &Vec<u8>)
    ensures
        final(out)@ == old(out)@ + bytes@,
{
    let mut i: usize = 0;
    while i < bytes.len()
        invariant
            i <= bytes.len(),
            out@ == old(out)@ + bytes@.subrange(0, i as int),
        decreases bytes.len() - i,
    {
        out.push(bytes[i]);
        i = i + 1;
        assert(out@ =~= old(out)@ + bytes@.subrange(0, i as int));
    }
    assert(bytes@.subrange(0, bytes.len() as int) =~= bytes@);
}

/// The byte contents of each buffer of a list, in order.
pub open spec fn buffers(list: Seq<Vec<u8>>) -> Seq<Seq<u8>> {
    list.map_values(|b: Vec<u8>| b@)
}

/// Appending a buffer appends its contents.
pub proof fn lemma_buffers_push(list: Seq<Vec<u8>>, b: Vec<u8>)
    ensures
        buffers(list.push(b)) == buffers(list).push(b@),
{
    assert(buffers(list.push(b)) =~= buffers(list).push(b@));
}

/// Concatenating two lists concatenates their contents.
pub proof fn lemma_buffers_add(a: Seq<Vec<u8>>, b: Seq<Vec<u8>>)
    ensures
        buffers(a + b) == buffers(a) + buffers(b),
{
    assert(buffers(a + b) =~= buffers(a) + buffers(b));
}

} // verus!
