//! Elements of the scalar field, held by their canonical encoding.

use vstd::prelude::*;
use ark_ff::bytes::{FromBytes, ToBytes};
use bandersnatch::Fr;
use crate::encoding::{copy_range, le_encoding, le_value, scalar_modulus, FIELD_BYTES};
use crate::error::CommitError;

verus! {

/// Whether `bytes` is the canonical encoding of a scalar: 32 bytes that
/// spell, least significant first, a number below the field's modulus.
pub open spec fn is_scalar_encoding(bytes: Seq<u8>) -> bool {
    bytes.len() == 32 && le_value(bytes) < scalar_modulus()
}

/// `a - b` in the scalar field, for `a` and `b` below the modulus.
pub open spec fn field_difference(a: nat, b: nat) -> nat {
    if a >= b {
        (a - b) as nat
    } else {
        (a + scalar_modulus() - b) as nat
    }
}

/// What decoding makes of `bytes`: the same bytes where they are a canonical
/// encoding, nothing otherwise.
pub open spec fn decoded_scalar(bytes: Seq<u8>) -> Option<Seq<u8>> {
    if is_scalar_encoding(bytes) {
        Some(bytes)
    } else {
        None
    }
}

/// Encoding a scalar and decoding the bytes gives the scalar back.
pub proof fn lemma_scalar_round_trip(s: Scalar)
    requires
        s.wf(),
    ensures
        decoded_scalar(s@) == Some(s@),
{
}

/// An element of the scalar field.
pub struct Scalar {
    pub(crate) bytes: Vec<u8>,
}

impl View for Scalar {
    type V = Seq<u8>;

    /// The canonical encoding.
    closed spec fn view(&self) -> Seq<u8> {
        self.bytes@
    }
}

impl Scalar {
    /// The encoding held is canonical.
    pub open spec fn wf(&self) -> bool {
        is_scalar_encoding(self@)
    }

    /// The number below the modulus that this scalar is.
    pub open spec fn value(&self) -> nat {
        le_value(self@)
    }

    /// The scalar that `bytes` encodes. Fails with `DecodingError` unless
    /// `bytes` is a canonical encoding.
    pub fn decode(bytes: &Vec<u8>) -> (r: Result<Scalar, CommitError>)
        ensures
            r is Ok == decoded_scalar(bytes@) is Some,
            r matches Ok(s) ==> s.wf() && Some(s@) == decoded_scalar(bytes@),
            r matches Err(e) ==> e == CommitError::DecodingError,
    {
        if bytes.len() != FIELD_BYTES {
            return Err(CommitError::DecodingError);
        }
        if !scalar_reads(bytes) {
            return Err(CommitError::DecodingError);
        }
        let held = copy_range(bytes, 0, FIELD_BYTES);
        assert(bytes@.subrange(0, 32) =~= bytes@);
        Ok(Scalar { bytes: held })
    }

    /// The canonical encoding of this scalar.
    pub fn encode(&self) -> (out: Vec<u8>)
        ensures
            out@ == self@,
    {
        let out = copy_range(&self.bytes, 0, self.bytes.len());
        assert(self.bytes@.subrange(0, self.bytes@.len() as int) =~= self.bytes@);
        out
    }

    /// `self - other` in the scalar field.
    pub fn sub(&self, other: &Scalar) -> (r: Scalar)
        requires
            self.wf(),
            other.wf(),
        ensures
            r.wf(),
            r@ == le_encoding(field_difference(self.value(), other.value()), 32),
    {
        scalar_difference(self, other)
    }
}

/// Calls `Fr::read` of bandersnatch (ark-ff's `FromBytes` for a prime field)
/// on 32 bytes and reports whether it accepted them. It takes the bytes as a
/// little-endian integer and accepts exactly those below the modulus.
#[verifier::external_body]
fn scalar_reads(bytes: &Vec<u8>) -> (ok: bool)
    requires
        bytes@.len() == 32,
    ensures
        ok == (le_value(bytes@) < scalar_modulus()),
{
    Fr::read(bytes.as_slice()).is_ok()
}

/// Calls the subtraction of bandersnatch's `Fr` (ark-ff's `Sub` for a prime
/// field) between two decoded scalars and writes the canonical encoding of
/// the difference, which is the difference of the two numbers modulo the
/// field's modulus.
#[verifier::external_body]
fn scalar_difference(a: &Scalar, b: &Scalar) -> (r: Scalar)
    requires
        a.wf(),
        b.wf(),
    ensures
        r.wf(),
        r@ == le_encoding(field_difference(a.value(), b.value()), 32),
{
    let x = Fr::read(a.bytes.as_slice()).unwrap();
    let y = Fr::read(b.bytes.as_slice()).unwrap();
    let mut bytes: Vec<u8> = Vec::new();
    (x - y).write(&mut bytes).unwrap();
    Scalar { bytes }
}

} // verus!
