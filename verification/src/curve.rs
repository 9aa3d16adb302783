//! Points of the curve, held by their encoding in extended coordinates: the
//! four coordinates x, y, t and z, each as a canonical 32-byte element of the
//! base field, 128 bytes in all.

use vstd::prelude::*;
use ark_ec::ProjectiveCurve;
use ark_ff::bytes::{FromBytes, ToBytes};
use ark_ff::{PrimeField, Zero};
use bandersnatch::{EdwardsAffine, EdwardsProjective, Fq, Fr};
use crate::encoding::{
    all_zero, base_modulus, be_value, bytes_equal, copy_range, le_encoding, le_value,
    range_is_zero,
};
use crate::error::CommitError;
use crate::field::Scalar;

verus! {

/// Width in bytes of an encoded point.
pub const POINT_BYTES: usize = 128;

/// The coordinate of `bytes` at place `k`: 0 for x, 1 for y, 2 for t, 3 for z.
pub open spec fn coordinate(bytes: Seq<u8>, k: int) -> Seq<u8> {
    bytes.subrange(32 * k, 32 * k + 32)
}

/// Whether `bytes` holds four canonical elements of the base field.
pub open spec fn is_coordinate_encoding(bytes: Seq<u8>) -> bool {
    &&& bytes.len() == 128
    &&& le_value(coordinate(bytes, 0)) < base_modulus()
    &&& le_value(coordinate(bytes, 1)) < base_modulus()
    &&& le_value(coordinate(bytes, 2)) < base_modulus()
    &&& le_value(coordinate(bytes, 3)) < base_modulus()
}

/// The encoding of the neutral element: x = 0, y = 1, t = 0, z = 1.
pub open spec fn identity_encoding() -> Seq<u8> {
    Seq::new(
        128,
        |i: int|
            if i == 32 || i == 96 {
                1u8
            } else {
                0u8
            },
    )
}

/// The encoding of the field element one.
pub open spec fn one_encoding() -> Seq<u8> {
    Seq::new(
        32,
        |i: int|
            if i == 0 {
                1u8
            } else {
                0u8
            },
    )
}

/// Whether the four coordinates fit together as extended coordinates do:
/// t times z is x times y in the base field.
pub open spec fn is_extended(bytes: Seq<u8>) -> bool {
    &&& is_coordinate_encoding(bytes)
    &&& (le_value(coordinate(bytes, 2)) * le_value(coordinate(bytes, 3))) % base_modulus() == (
    le_value(coordinate(bytes, 0)) * le_value(coordinate(bytes, 1))) % base_modulus()
}

/// Whether `bytes` is in normal form: extended coordinates with z = 1, so
/// that x and y are the affine coordinates. A point has one normal form.
pub open spec fn is_normal(bytes: Seq<u8>) -> bool {
    is_extended(bytes) && coordinate(bytes, 3) == one_encoding()
}

/// The coordinates x, y and t of `bytes` each divided by z, and z set to one;
/// where z is zero, all three are zero.
pub uninterp spec fn normal_form(bytes: Seq<u8>) -> Seq<u8>;

/// Whether the point that `bytes` encodes, taken to affine form by dividing
/// x and y by z, satisfies the curve's equation.
pub uninterp spec fn on_curve(bytes: Seq<u8>) -> bool;

/// The encoding of the sum of the points that `a` and `b` encode.
pub uninterp spec fn point_sum(a: Seq<u8>, b: Seq<u8>) -> Seq<u8>;

/// The encoding of the point that `point` encodes, taken `scalar` times.
pub uninterp spec fn point_product(scalar: Seq<u8>, point: Seq<u8>) -> Seq<u8>;

/// The encoding of the curve point whose affine x-coordinate `x` encodes, if
/// the curve has one; of the two such points, the one with the greater y if
/// `greatest`, else the one with the smaller.
pub uninterp spec fn point_with_x(x: Seq<u8>, greatest: bool) -> Option<Seq<u8>>;

/// Whether `bytes` is accepted as a point: four canonical coordinates, z not
/// zero, and the curve's equation met.
pub open spec fn is_point_encoding(bytes: Seq<u8>) -> bool {
    &&& is_coordinate_encoding(bytes)
    &&& !all_zero(coordinate(bytes, 3))
    &&& on_curve(bytes)
}

/// A point in extended coordinates.
pub struct Point {
    pub(crate) bytes: Vec<u8>,
}

impl View for Point {
    type V = Seq<u8>;

    /// The 128-byte encoding.
    closed spec fn view(&self) -> Seq<u8> {
        self.bytes@
    }
}

impl Point {
    /// The coordinates held are canonical.
    pub open spec fn wf(&self) -> bool {
        is_coordinate_encoding(self@)
    }

    /// The neutral element of the group, in normal form.
    pub fn identity() -> (r: Point)
        ensures
            r.wf(),
            r@ == identity_encoding(),
            is_normal(r@),
    {
        neutral_point()
    }

    /// Whether this is the neutral element in the form that `identity` gives.
    pub fn is_identity(&self) -> (r: bool)
        ensures
            r == (self@ == identity_encoding()),
    {
        let neutral = neutral_point();
        bytes_equal(&self.bytes, &neutral.bytes)
    }

    /// The point that `bytes` encodes. Fails with `DecodingError` unless
    /// `bytes` is accepted as a point.
    pub fn decode(bytes: &Vec<u8>) -> (r: Result<Point, CommitError>)
        ensures
            r is Ok == decoded_point(bytes@) is Some,
            r matches Ok(p) ==> p.wf() && Some(p@) == decoded_point(bytes@),
            r matches Err(e) ==> e == CommitError::DecodingError,
    {
        if bytes.len() != POINT_BYTES {
            return Err(CommitError::DecodingError);
        }
        if !coordinates_read(bytes) {
            return Err(CommitError::DecodingError);
        }
        if range_is_zero(bytes, 96, 128) {
            return Err(CommitError::DecodingError);
        }
        if !meets_curve_equation(bytes) {
            return Err(CommitError::DecodingError);
        }
        let held = copy_range(bytes, 0, POINT_BYTES);
        assert(bytes@.subrange(0, 128) =~= bytes@);
        Ok(Point { bytes: held })
    }

    /// The 128-byte encoding of this point.
    pub fn encode(&self) -> (out: Vec<u8>)
        ensures
            out@ == self@,
    {
        let out = copy_range(&self.bytes, 0, self.bytes.len());
        assert(self.bytes@.subrange(0, self.bytes@.len() as int) =~= self.bytes@);
        out
    }

    /// A second holder of the same point.
    pub fn duplicate(&self) -> (r: Point)
        ensures
            r@ == self@,
    {
        let out = copy_range(&self.bytes, 0, self.bytes.len());
        assert(self.bytes@.subrange(0, self.bytes@.len() as int) =~= self.bytes@);
        Point { bytes: out }
    }

    /// The sum of this point and `other`. Adding the neutral element to a
    /// point in normal form leaves its encoding as it is, and adding it to
    /// any point in extended coordinates leaves the normal form as it is.
    pub fn add(&self, other: &Point) -> (r: Point)
        requires
            self.wf(),
            other.wf(),
        ensures
            r.wf(),
            r@ == point_sum(self@, other@),
            is_extended(r@),
            is_normal(self@) && other@ == identity_encoding() ==> r@ == self@,
            is_extended(self@) && other@ == identity_encoding() ==> normal_form(r@)
                == normal_form(self@),
    {
        projective_sum(self, other)
    }

    /// This point taken `scalar` times. Taken zero times, it is the neutral
    /// element.
    pub fn mul(&self, scalar: &Scalar) -> (r: Point)
        requires
            self.wf(),
            scalar.wf(),
        ensures
            r.wf(),
            r@ == point_product(scalar@, self@),
            scalar.value() == 0 ==> r@ == identity_encoding(),
    {
        projective_product(self, scalar)
    }

    /// This point in normal form. A point already in normal form is
    /// unchanged.
    pub fn normalize(&self) -> (r: Point)
        requires
            self.wf(),
        ensures
            r.wf(),
            r@ == normal_form(self@),
            coordinate(r@, 3) == one_encoding(),
            is_extended(self@) ==> is_normal(r@),
            coordinate(self@, 3) == one_encoding() ==> r@ == self@,
    {
        projective_normal_form(self)
    }

    /// The point found from the 32 bytes of a hash taken as its affine
    /// x-coordinate: the bytes are read most significant first and reduced
    /// into the base field; of the two points with that x, the one with the
    /// smaller y is taken. `None` where the curve has no point with that x.
    pub fn from_hash(digest: &Vec<u8>) -> (r: Option<Point>)
        requires
            digest@.len() == 32,
        ensures
            r is Some == point_from_digest(digest@) is Some,
            r matches Some(p) ==> p.wf() && Some(p@) == point_from_digest(digest@),
    {
        let x = reduce_into_base_field(digest);
        lift_x(&x, false)
    }
}

/// A point in normal form has a z that is not zero.
pub proof fn lemma_normal_z_not_zero(bytes: Seq<u8>)
    requires
        is_normal(bytes),
    ensures
        !all_zero(coordinate(bytes, 3)),
{
    assert(coordinate(bytes, 3)[0] == 1u8);
}

/// What decoding makes of `bytes`: the same bytes where they are accepted
/// as a point, nothing otherwise.
pub open spec fn decoded_point(bytes: Seq<u8>) -> Option<Seq<u8>> {
    if is_point_encoding(bytes) {
        Some(bytes)
    } else {
        None
    }
}

/// Encoding a point and decoding the bytes gives the point back, for every
/// point that decoding accepts at all.
pub proof fn lemma_point_round_trip(p: Point)
    requires
        is_point_encoding(p@),
    ensures
        decoded_point(p@) == Some(p@),
{
}

/// Of a point in normal form decoding asks no more than the curve's
/// equation: where such a point meets it, decoding its encoding gives the
/// point back.
pub proof fn lemma_normal_point_round_trip(p: Point)
    requires
        is_normal(p@),
    ensures
        on_curve(p@) ==> decoded_point(p@) == Some(p@),
{
    lemma_normal_z_not_zero(p@);
}

/// The x-coordinate that a hash gives: its bytes read most significant first,
/// reduced modulo the base field's modulus.
pub open spec fn x_from_digest(digest: Seq<u8>) -> Seq<u8> {
    le_encoding(be_value(digest) % base_modulus(), 32)
}

/// The point that `Point::from_hash` finds for `digest`.
pub open spec fn point_from_digest(digest: Seq<u8>) -> Option<Seq<u8>> {
    point_with_x(x_from_digest(digest), false)
}

/// Calls `EdwardsProjective::zero` of bandersnatch (ark-ec's twisted Edwards
/// curve in extended coordinates) and writes the point, which that function
/// builds from the coordinates 0, 1, 0, 1: a normal form, as z is 1 and t,
/// which is 0, is x times y.
#[verifier::external_body]
fn neutral_point() -> (r: Point)
    ensures
        r.wf(),
        r@ == identity_encoding(),
        is_normal(r@),
{
    let mut bytes: Vec<u8> = Vec::new();
    EdwardsProjective::zero().write(&mut bytes).unwrap();
    Point { bytes }
}

/// Calls `EdwardsProjective::read` (ark-ec's `FromBytes`) on 128 bytes and
/// reports whether it accepted them. It reads four elements of the base field
/// in turn and accepts exactly when each is below the modulus; it does not
/// test the curve's equation.
#[verifier::external_body]
fn coordinates_read(bytes: &Vec<u8>) -> (ok: bool)
    requires
        bytes@.len() == 128,
    ensures
        ok == is_coordinate_encoding(bytes@),
{
    EdwardsProjective::read(bytes.as_slice()).is_ok()
}

/// Calls `into_affine` and then `is_on_curve` of ark-ec on the point read
/// from `bytes`, and hands back the answer under the name `on_curve`. The
/// conversion divides by z, which must not be zero.
#[verifier::external_body]
fn meets_curve_equation(bytes: &Vec<u8>) -> (ok: bool)
    requires
        is_coordinate_encoding(bytes@),
        !all_zero(coordinate(bytes@, 3)),
    ensures
        ok == on_curve(bytes@),
{
    let p = EdwardsProjective::read(bytes.as_slice()).unwrap();
    p.into_affine().is_on_curve()
}

/// Calls the addition of ark-ec's extended twisted Edwards points on the two
/// points read and writes the four coordinates of the result, under the name
/// `point_sum`. Each coordinate written is a canonical field element. The
/// addition sets x = E*F, y = G*H, t = E*H and z = F*G for four field
/// elements E, F, G, H, so t*z is x*y. With (0, 1, 0, 1) as second argument
/// these are E = x1, F = G = z1 and H = y1, so the result is
/// (x1*z1, y1*z1, x1*y1, z1*z1). For z1 = 1 and t1 = x1*y1 that is the first
/// argument itself. For t1*z1 = x1*y1 it is the first argument with each
/// coordinate multiplied by z1, a factor that `batch_normalization` divides
/// out again; where z1 is zero, both normal forms are (0, 0, 0, 1).
#[verifier::external_body]
fn projective_sum(a: &Point, b: &Point) -> (r: Point)
    requires
        a.wf(),
        b.wf(),
    ensures
        r.wf(),
        r@ == point_sum(a@, b@),
        is_extended(r@),
        is_normal(a@) && b@ == identity_encoding() ==> r@ == a@,
        is_extended(a@) && b@ == identity_encoding() ==> normal_form(r@) == normal_form(a@),
{
    let p = EdwardsProjective::read(a.bytes.as_slice()).unwrap();
    let q = EdwardsProjective::read(b.bytes.as_slice()).unwrap();
    let mut bytes: Vec<u8> = Vec::new();
    (p + q).write(&mut bytes).unwrap();
    Point { bytes }
}

/// Calls `ProjectiveCurve::mul` of ark-ec on the point read, with the scalar
/// read by `Fr::read`, and writes the four coordinates of the result, under
/// the name `point_product`. Each coordinate written is a canonical field
/// element. The multiplication starts from `zero()` and doubles and adds once
/// for each bit of the scalar from its highest set bit down, so for the
/// scalar zero it hands back `zero()` itself.
#[verifier::external_body]
fn projective_product(p: &Point, scalar: &Scalar) -> (r: Point)
    requires
        p.wf(),
        scalar.wf(),
    ensures
        r.wf(),
        r@ == point_product(scalar@, p@),
        scalar.value() == 0 ==> r@ == identity_encoding(),
{
    let k = Fr::read(scalar.bytes.as_slice()).unwrap();
    let q = EdwardsProjective::read(p.bytes.as_slice()).unwrap();
    let mut bytes: Vec<u8> = Vec::new();
    q.mul(k.into_repr()).write(&mut bytes).unwrap();
    Point { bytes }
}

/// Calls `ProjectiveCurve::batch_normalization` of ark-ec on the one point
/// read and writes the result, under the name `normal_form`. It leaves a
/// point with z = 1 as it is; of any other it multiplies x, y and t by the
/// inverse of z, or by zero where z is zero, and sets z to 1. So where t*z was
/// x*y before, t is x*y after.
#[verifier::external_body]
fn projective_normal_form(p: &Point) -> (r: Point)
    requires
        p.wf(),
    ensures
        r.wf(),
        r@ == normal_form(p@),
        coordinate(r@, 3) == one_encoding(),
        is_extended(p@) ==> is_normal(r@),
        coordinate(p@, 3) == one_encoding() ==> r@ == p@,
{
    let mut held = [EdwardsProjective::read(p.bytes.as_slice()).unwrap()];
    EdwardsProjective::batch_normalization(&mut held);
    let mut bytes: Vec<u8> = Vec::new();
    held[0].write(&mut bytes).unwrap();
    Point { bytes }
}

/// Calls `Fq::from_be_bytes_mod_order` of ark-ff, which reads the bytes most
/// significant first and reduces the number modulo the base field's modulus,
/// and writes the canonical 32-byte encoding of the element.
#[verifier::external_body]
fn reduce_into_base_field(bytes: &Vec<u8>) -> (x: Vec<u8>)
    requires
        bytes@.len() == 32,
    ensures
        x@ == le_encoding(be_value(bytes@) % base_modulus(), 32),
        x@.len() == 32,
        le_value(x@) < base_modulus(),
{
    let mut out: Vec<u8> = Vec::new();
    Fq::from_be_bytes_mod_order(bytes.as_slice()).write(&mut out).unwrap();
    out
}

/// Calls `EdwardsAffine::get_point_from_x` of ark-ec on the field element
/// read from `x`, and writes the point it finds in extended coordinates with
/// z = 1, under the name `point_with_x`. It finds none where the curve's
/// equation has no solution for that x.
#[verifier::external_body]
fn lift_x(x: &Vec<u8>, greatest: bool) -> (r: Option<Point>)
    requires
        x@.len() == 32,
        le_value(x@) < base_modulus(),
    ensures
        r is Some == point_with_x(x@, greatest) is Some,
        r matches Some(p) ==> p.wf() && Some(p@) == point_with_x(x@, greatest),
{
    let coordinate = Fq::read(x.as_slice()).unwrap();
    match EdwardsAffine::get_point_from_x(coordinate, greatest) {
        Some(affine) => {
            let mut bytes: Vec<u8> = Vec::new();
            EdwardsProjective::from(affine).write(&mut bytes).unwrap();
            Some(Point { bytes })
        },
        None => None,
    }
}

} // verus!
