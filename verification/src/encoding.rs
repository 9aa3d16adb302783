//! Integers as byte strings: the little-endian form of field elements and the
//! big-endian form of the derivation counter.

use vstd::prelude::*;

verus! {

/// Width in bytes of an encoded field element.
pub const FIELD_BYTES: usize = 32;

/// The number that `bytes` spells, least significant byte first.
pub open spec fn le_value(bytes: Seq<u8>) -> nat
    decreases bytes.len(),
{
    if bytes.len() == 0 {
        0
    } else {
        bytes[0] as nat + 256 * le_value(bytes.drop_first())
    }
}

/// The number that `bytes` spells, most significant byte first.
pub open spec fn be_value(bytes: Seq<u8>) -> nat
    decreases bytes.len(),
{
    if bytes.len() == 0 {
        0
    } else {
        256 * be_value(bytes.drop_last()) + bytes.last() as nat
    }
}

/// The `len` low bytes of `n`, least significant first.
pub open spec fn le_encoding(n: nat, len: nat) -> Seq<u8>
    decreases len,
{
    if len == 0 {
        Seq::empty()
    } else {
        seq![(n % 256) as u8] + le_encoding(n / 256, (len - 1) as nat)
    }
}

/// The `len` low bytes of `n`, most significant first.
pub open spec fn be_encoding(n: nat, len: nat) -> Seq<u8>
    decreases len,
{
    if len == 0 {
        Seq::empty()
    } else {
        be_encoding(n / 256, (len - 1) as nat).push((n % 256) as u8)
    }
}

/// The number whose four 64-bit limbs are given, least significant first.
pub open spec fn limbs_value(l0: u64, l1: u64, l2: u64, l3: u64) -> nat {
    (l0 as nat) + 0x1_0000_0000_0000_0000 * ((l1 as nat) + 0x1_0000_0000_0000_0000 * ((l2 as nat)
        + 0x1_0000_0000_0000_0000 * (l3 as nat)))
}

/// Encoding the number that `bytes` spells, in as many bytes, gives `bytes`
/// back.
pub proof fn lemma_encoding_of_value(bytes: Seq<u8>)
    ensures
        le_encoding(le_value(bytes), bytes.len()) == bytes,
    decreases bytes.len(),
{
    if bytes.len() > 0 {
        let rest = bytes.drop_first();
        lemma_encoding_of_value(rest);
        let v = le_value(bytes);
        assert(v == bytes[0] as nat + 256 * le_value(rest));
        assert(v % 256 == bytes[0] as nat);
        assert(v / 256 == le_value(rest));
        assert(le_encoding(v, bytes.len()) =~= seq![bytes[0]] + le_encoding(
            le_value(rest),
            rest.len(),
        ));
        assert(seq![bytes[0]] + rest =~= bytes);
    } else {
        assert(le_encoding(0, 0) =~= bytes);
    }
}

/// Zero is encoded as zero bytes, which spell zero.
pub proof fn lemma_zero_encoding(len: nat)
    ensures
        le_value(le_encoding(0, len)) == 0,
        le_encoding(0, len).len() == len,
    decreases len,
{
    if len > 0 {
        lemma_zero_encoding((len - 1) as nat);
        assert(le_encoding(0, len).drop_first() =~= le_encoding(0, (len - 1) as nat));
    }
}

/// Order of the prime subgroup of the curve, the modulus of the scalar field:
/// 13108968793781547619861935127046491459309155893440570251786403306729687672801.
pub open spec fn scalar_modulus() -> nat {
    limbs_value(0x74fd06b52876e7e1, 0xff8f870074190471, 0x0cce760202687600, 0x1cfb69d4ca675f52)
}

/// Modulus of the field over which the curve is defined:
/// 52435875175126190479447740508185965837690552500527637822603658699938581184513.
pub open spec fn base_modulus() -> nat {
    limbs_value(0xffffffff00000001, 0x53bda402fffe5bfe, 0x3339d80809a1d805, 0x73eda753299d7d48)
}

/// Every byte of `bytes` is zero.
pub open spec fn all_zero(bytes: Seq<u8>) -> bool {
    forall|i: int| 0 <= i < bytes.len() ==> bytes[i] == 0
}

/// A fresh vector holding the bytes of `src` from `start` up to `end`.
pub fn copy_range(src: &Vec<u8>, start: usize, end: usize) -> (out: Vec<u8>)
    requires
        start <= end <= src@.len(),
    ensures
        out@ == src@.subrange(start as int, end as int),
{
    let mut out: Vec<u8> = Vec::new();
    let mut i: usize = start;
    while i < end
        invariant
            start <= i <= end <= src@.len(),
            out@ == src@.subrange(start as int, i as int),
        decreases end - i,
    {
        out.push(src[i]);
        i += 1;
        assert(out@ =~= src@.subrange(start as int, i as int));
    }
    out
}

/// Whether two byte strings are the same.
pub fn bytes_equal(a: &Vec<u8>, b: &Vec<u8>) -> (same: bool)
    ensures
        same == (a@ == b@),
{
    if a.len() != b.len() {
        return false;
    }
    let mut i: usize = 0;
    while i < a.len()
        invariant
            a@.len() == b@.len(),
            i <= a@.len(),
            forall|j: int| 0 <= j < i ==> a@[j] == b@[j],
        decreases a@.len() - i,
    {
        if a[i] != b[i] {
            return false;
        }
        i += 1;
    }
    assert(a@ =~= b@);
    true
}

/// Whether the bytes of `src` from `start` up to `end` are all zero.
pub fn range_is_zero(src: &Vec<u8>, start: usize, end: usize) -> (zero: bool)
    requires
        start <= end <= src@.len(),
    ensures
        zero == all_zero(src@.subrange(start as int, end as int)),
{
    let mut i: usize = start;
    while i < end
        invariant
            start <= i <= end <= src@.len(),
            forall|j: int| start <= j < i ==> src@[j] == 0,
        decreases end - i,
    {
        if src[i] != 0 {
            assert(src@.subrange(start as int, end as int)[i - start] == src@[i as int]);
            return false;
        }
        i += 1;
    }
    true
}

/// The `len` low bytes of `n`, most significant first.
pub fn be_bytes(n: u64, len: usize) -> (out: Vec<u8>)
    ensures
        out@ == be_encoding(n as nat, len as nat),
    decreases len,
{
    if len == 0 {
        Vec::new()
    } else {
        let mut out = be_bytes(n / 256, len - 1);
        out.push((n % 256) as u8);
        out
    }
}

/// `head` followed by `tail`, in a fresh vector.
pub fn join_bytes(head: &Vec<u8>, tail: &Vec<u8>) -> (out: Vec<u8>)
    ensures
        out@ == head@ + tail@,
{
    let mut out: Vec<u8> = copy_range(head, 0, head.len());
    assert(head@.subrange(0, head@.len() as int) =~= head@);
    let mut i: usize = 0;
    while i < tail.len()
        invariant
            i <= tail@.len(),
            out@ == head@ + tail@.subrange(0, i as int),
        decreases tail@.len() - i,
    {
        out.push(tail[i]);
        i += 1;
        assert(out@ =~= head@ + tail@.subrange(0, i as int));
    }
    assert(tail@.subrange(0, tail@.len() as int) =~= tail@);
    out
}

} // verus!
