//! Little-endian byte encodings shared by the encoder and the decoder.
use vstd::prelude::*;
use vstd::bytes::*;
use vstd::slice::slice_subrange;

verus! {

/// Two bytes, least significant first.
pub open spec fn le16(x: u16) -> Seq<u8> {
    spec_u16_to_le_bytes(x)
}

/// Four bytes, least significant first.
pub open spec fn le32(x: u32) -> Seq<u8> {
    spec_u32_to_le_bytes(x)
}

/// Eight bytes, least significant first.
pub open spec fn le64(x: u64) -> Seq<u8> {
    spec_u64_to_le_bytes(x)
}

/// A signed 32-bit integer in two's complement, least significant byte first.
pub open spec fn lei32(x: i32) -> Seq<u8> {
    spec_u32_to_le_bytes(x as u32)
}

/// The `u16` stored little-endian at `at`.
pub open spec fn get_u16(s: Seq<u8>, at: int) -> u16 {
    spec_u16_from_le_bytes(s.subrange(at, at + 2))
}

/// The `u32` stored little-endian at `at`.
pub open spec fn get_u32(s: Seq<u8>, at: int) -> u32 {
    spec_u32_from_le_bytes(s.subrange(at, at + 4))
}

/// The `u64` stored little-endian at `at`.
pub open spec fn get_u64(s: Seq<u8>, at: int) -> u64 {
    spec_u64_from_le_bytes(s.subrange(at, at + 8))
}

/// The `i32` stored little-endian at `at`.
pub open spec fn get_i32(s: Seq<u8>, at: int) -> i32 {
    get_u32(s, at) as i32
}

/// `n` zero bytes.
pub open spec fn zeros(n: nat) -> Seq<u8> {
    Seq::new(n, |i: int| 0u8)
}

/// The encodings above have the stated lengths and are read back by the matching getters.
pub proof fn lemma_le_roundtrip()
    ensures
        forall|x: u16| #[trigger] le16(x).len() == 2 && spec_u16_from_le_bytes(le16(x)) == x,
        forall|x: u32| #[trigger] le32(x).len() == 4 && spec_u32_from_le_bytes(le32(x)) == x,
        forall|x: u64| #[trigger] le64(x).len() == 8 && spec_u64_from_le_bytes(le64(x)) == x,
        forall|x: i32| #[trigger] lei32(x).len() == 4 && (spec_u32_from_le_bytes(lei32(x)) as i32) == x,
{
    lemma_auto_spec_u16_to_from_le_bytes();
    lemma_auto_spec_u32_to_from_le_bytes();
    lemma_auto_spec_u64_to_from_le_bytes();
    assert forall|x: i32| #[trigger] lei32(x).len() == 4 && (spec_u32_from_le_bytes(lei32(x)) as i32) == x by {
        let y = #[verifier::truncate] (x as u32);
        assert(spec_u32_to_le_bytes(y).len() == 4);
        assert(spec_u32_from_le_bytes(spec_u32_to_le_bytes(y)) == y);
        assert((#[verifier::truncate] (x as u32)) as i32 == x) by (bit_vector);
    }
}

/// Appends `x` to `out`.
pub fn push_u16(out: &mut Vec<u8>, x: u16)
    ensures
        final(out)@ == old(out)@ + le16(x),
{
    let mut b = u16_to_le_bytes(x);
    out.append(&mut b);
}

/// Appends `x` to `out`.
pub fn push_u32(out: &mut Vec<u8>, x: u32)
    ensures
        final(out)@ == old(out)@ + le32(x),
{
    let mut b = u32_to_le_bytes(x);
    out.append(&mut b);
}

/// Appends `x` to `out`.
pub fn push_u64(out: &mut Vec<u8>, x: u64)
    ensures
        final(out)@ == old(out)@ + le64(x),
{
    let mut b = u64_to_le_bytes(x);
    out.append(&mut b);
}

/// Appends `x` to `out`.
pub fn push_i32(out: &mut Vec<u8>, x: i32)
    ensures
        final(out)@ == old(out)@ + lei32(x),
{
    let mut b = u32_to_le_bytes(x as u32);
    out.append(&mut b);
}

/// Appends all of `src` to `out`.
pub fn push_all(out: &mut Vec<u8>, src: &[u8])
    ensures
        final(out)@ == old(out)@ + src@,
{
    let mut i: usize = 0;
    let ghost start = out@;
    while i < src.len()
        invariant
            i <= src.len(),
            out@ == start + src@.subrange(0, i as int),
        decreases src.len() - i,
    {
        out.push(src[i]);
        i = i + 1;
        assert(src@.subrange(0, i as int) =~= src@.subrange(0, i - 1) + seq![src@[i - 1]]);
    }
    assert(src@.subrange(0, src.len() as int) =~= src@);
}

/// The `u16` stored at `at`.
pub fn read_u16(s: &[u8], at: usize) -> (r: u16)
    requires
        at + 2 <= s@.len(),
    ensures
        r == get_u16(s@, at as int),
{
    let n = s.len();
    assert(at + 2 <= n);
    u16_from_le_bytes(slice_subrange(s, at, at + 2))
}

/// The `u32` stored at `at`.
pub fn read_u32(s: &[u8], at: usize) -> (r: u32)
    requires
        at + 4 <= s@.len(),
    ensures
        r == get_u32(s@, at as int),
{
    let n = s.len();
    assert(at + 4 <= n);
    u32_from_le_bytes(slice_subrange(s, at, at + 4))
}

/// The `u64` stored at `at`.
pub fn read_u64(s: &[u8], at: usize) -> (r: u64)
    requires
        at + 8 <= s@.len(),
    ensures
        r == get_u64(s@, at as int),
{
    let n = s.len();
    assert(at + 8 <= n);
    u64_from_le_bytes(slice_subrange(s, at, at + 8))
}

} // verus!
