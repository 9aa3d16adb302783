//! Commitments to vectors of scalars, and their update in one coordinate.

use vstd::prelude::*;
use crate::curve::{
    identity_encoding, is_extended, is_normal, is_point_encoding, normal_form,
    point_product, point_sum, Point,
};
use crate::encoding::{le_encoding, le_value, lemma_encoding_of_value, lemma_zero_encoding};
use crate::error::CommitError;
use crate::field::{field_difference, is_scalar_encoding, Scalar};
use crate::generators::{GeneratorSet, DOMAIN_SIZE};

verus! {

/// The sum of the first `n` terms, each a value times its generator, added up
/// from the neutral element in the order of the coordinates.
pub open spec fn partial_sum(values: Seq<Seq<u8>>, generators: Seq<Seq<u8>>, n: nat) -> Seq<u8>
    decreases n,
{
    if n == 0 {
        identity_encoding()
    } else {
        point_sum(
            partial_sum(values, generators, (n - 1) as nat),
            point_product(values[n - 1], generators[n - 1]),
        )
    }
}

/// The commitment to `values` under `generators`: the sum of all the terms,
/// in normal form.
pub open spec fn commitment_of(values: Seq<Seq<u8>>, generators: Seq<Seq<u8>>) -> Seq<u8> {
    normal_form(partial_sum(values, generators, values.len()))
}

/// The encoding of `new - old` in the scalar field.
pub open spec fn delta_encoding(old: Seq<u8>, new: Seq<u8>) -> Seq<u8> {
    le_encoding(field_difference(le_value(new), le_value(old)), 32)
}

/// The commitment after one coordinate went from `old` to `new`: the earlier
/// commitment plus the change times that coordinate's generator, in normal
/// form.
pub open spec fn updated_commitment(
    commitment: Seq<u8>,
    old: Seq<u8>,
    new: Seq<u8>,
    generator: Seq<u8>,
) -> Seq<u8> {
    normal_form(point_sum(commitment, point_product(delta_encoding(old, new), generator)))
}

/// Every one of the first `n` values is the scalar zero.
pub open spec fn zero_up_to(values: Seq<Seq<u8>>, n: nat) -> bool {
    forall|i: int| 0 <= i < n ==> le_value(#[trigger] values[i]) == 0
}

/// Every one of the first `n` values but the one at `place` is the scalar
/// zero.
pub open spec fn zero_up_to_except(values: Seq<Seq<u8>>, n: nat, place: int) -> bool {
    forall|i: int| 0 <= i < n && i != place ==> le_value(#[trigger] values[i]) == 0
}

/// The commitment to a vector whose one value that is not zero is `value`,
/// where `generator` is the generator of its place.
pub open spec fn single_term(value: Seq<u8>, generator: Seq<u8>) -> Seq<u8> {
    normal_form(point_sum(identity_encoding(), point_product(value, generator)))
}

/// Moving the neutral element from the value zero to `value` gives the
/// commitment to the vector that holds `value` at that place and zero
/// elsewhere.
pub proof fn lemma_update_of_neutral(zero: Seq<u8>, value: Seq<u8>, generator: Seq<u8>)
    requires
        le_value(zero) == 0,
        value.len() == 32,
    ensures
        updated_commitment(identity_encoding(), zero, value, generator) == single_term(
            value,
            generator,
        ),
{
    lemma_encoding_of_value(value);
}

/// The byte strings that `buffers` holds, in order.
pub open spec fn buffers_view(buffers: Seq<Vec<u8>>) -> Seq<Seq<u8>> {
    Seq::new(buffers.len(), |i: int| buffers[i]@)
}

/// Every buffer is a canonical scalar encoding.
pub open spec fn all_scalar_encodings(buffers: Seq<Seq<u8>>) -> bool {
    forall|i: int| 0 <= i < buffers.len() ==> is_scalar_encoding(#[trigger] buffers[i])
}

/// A polynomial given by its values on the evaluation domain, in order.
pub struct LagrangeVector {
    values: Vec<Scalar>,
}

impl View for LagrangeVector {
    type V = Seq<Seq<u8>>;

    /// The encodings of the values, in order.
    closed spec fn view(&self) -> Seq<Seq<u8>> {
        Seq::new(self.values@.len(), |i: int| self.values@[i]@)
    }
}

impl LagrangeVector {
    /// Every value holds a canonical encoding.
    pub closed spec fn wf(&self) -> bool {
        forall|i: int| 0 <= i < self.values@.len() ==> (#[trigger] self.values@[i]).wf()
    }

    /// The vector of the values that `buffers` encode, in order. Fails with
    /// `DecodingError` unless every buffer is a canonical scalar encoding.
    pub fn from_encoded(buffers: &Vec<Vec<u8>>) -> (r: Result<LagrangeVector, CommitError>)
        ensures
            all_scalar_encodings(buffers_view(buffers@)) ==> r is Ok,
            r matches Ok(v) ==> v.wf() && v@ == buffers_view(buffers@) && all_scalar_encodings(
                buffers_view(buffers@),
            ),
            r matches Err(e) ==> e == CommitError::DecodingError && !all_scalar_encodings(
                buffers_view(buffers@),
            ),
    {
        let mut values: Vec<Scalar> = Vec::new();
        let mut i: usize = 0;
        while i < buffers.len()
            invariant
                i <= buffers@.len(),
                values@.len() == i,
                forall|j: int| 0 <= j < i ==> (#[trigger] values@[j]).wf(),
                forall|j: int| 0 <= j < i ==> (#[trigger] values@[j])@ == buffers@[j]@,
            decreases buffers@.len() - i,
        {
            match Scalar::decode(&buffers[i]) {
                Ok(s) => {
                    values.push(s);
                },
                Err(_) => {
                    assert(!is_scalar_encoding(buffers_view(buffers@)[i as int]));
                    return Err(CommitError::DecodingError);
                },
            }
            i += 1;
        }
        let vector = LagrangeVector { values };
        assert(vector@ =~= buffers_view(buffers@));
        assert forall|j: int| 0 <= j < buffers@.len() implies is_scalar_encoding(
            #[trigger] buffers_view(buffers@)[j],
        ) by {
            assert(vector.values@[j].wf());
        }
        Ok(vector)
    }

    /// The vector of `values`, in order.
    pub fn new(values: Vec<Scalar>) -> (r: LagrangeVector)
        requires
            forall|i: int| 0 <= i < values@.len() ==> (#[trigger] values@[i]).wf(),
        ensures
            r.wf(),
            r@ == Seq::new(values@.len(), |i: int| values@[i]@),
    {
        LagrangeVector { values }
    }

    /// How many values the vector holds.
    pub fn len(&self) -> (n: usize)
        ensures
            n == self@.len(),
    {
        self.values.len()
    }
}

/// Commits to `vector` under `generators`. Fails with `InvalidInput` exactly
/// when the two differ in length. The commitment to a vector of zeros is the
/// neutral element, whatever the generators. The commitment to a vector that
/// is zero everywhere but at one place is what `update` makes of the neutral
/// element at that place, from any encoding of zero to the value there.
pub fn commit(vector: &LagrangeVector, generators: &GeneratorSet) -> (r: Result<Point, CommitError>)
    requires
        vector.wf(),
        generators.wf(),
    ensures
        vector@.len() == generators@.len() ==> r is Ok,
        r matches Ok(c) ==> {
            &&& vector@.len() == generators@.len()
            &&& c.wf()
            &&& is_normal(c@)
            &&& c@ == commitment_of(vector@, generators@)
            &&& zero_up_to(vector@, vector@.len()) ==> c@ == identity_encoding()
            &&& forall|place: int, zero: Seq<u8>|
                0 <= place < vector@.len() && le_value(zero) == 0 && #[trigger] zero_up_to_except(
                    vector@,
                    vector@.len(),
                    place,
                ) ==> c@ == #[trigger] updated_commitment(
                    identity_encoding(),
                    zero,
                    vector@[place],
                    generators@[place],
                )
        },
        r matches Err(e) ==> e == CommitError::InvalidInput && vector@.len() != generators@.len(),
{
    if vector.len() != generators.len() {
        return Err(CommitError::InvalidInput);
    }
    let mut sum = Point::identity();
    let mut i: usize = 0;
    while i < vector.values.len()
        invariant
            vector.wf(),
            generators.wf(),
            vector@.len() == generators@.len(),
            vector@.len() == vector.values@.len(),
            i <= vector.values@.len(),
            sum.wf(),
            is_extended(sum@),
            is_normal(identity_encoding()),
            sum@ == partial_sum(vector@, generators@, i as nat),
            zero_up_to(vector@, i as nat) ==> sum@ == identity_encoding(),
            forall|place: int|
                0 <= place < vector@.len() && #[trigger] zero_up_to_except(
                    vector@,
                    i as nat,
                    place,
                ) ==> if i <= place {
                    sum@ == identity_encoding()
                } else {
                    normal_form(sum@) == single_term(vector@[place], generators@[place])
                },
        decreases vector.values@.len() - i,
    {
        let value = &vector.values[i];
        assert(value.wf());
        assert(value@ == vector@[i as int]);
        let term = generators.get(i).mul(value);
        let ghost before = sum@;
        sum = sum.add(&term);
        i += 1;
        proof {
            if zero_up_to(vector@, i as nat) {
                assert(le_value(vector@[i - 1]) == 0);
                assert(zero_up_to(vector@, (i - 1) as nat));
            }
            assert forall|place: int|
                0 <= place < vector@.len() && #[trigger] zero_up_to_except(
                    vector@,
                    i as nat,
                    place,
                ) implies if i <= place {
                sum@ == identity_encoding()
            } else {
                normal_form(sum@) == single_term(vector@[place], generators@[place])
            } by {
                assert(zero_up_to_except(vector@, (i - 1) as nat, place));
                if place != i - 1 {
                    assert(le_value(vector@[i - 1]) == 0);
                }
            }
        }
    }
    let c = sum.normalize();
    proof {
        assert forall|place: int, zero: Seq<u8>|
            0 <= place < vector@.len() && le_value(zero) == 0 && #[trigger] zero_up_to_except(
                vector@,
                vector@.len(),
                place,
            ) implies c@ == #[trigger] updated_commitment(
            identity_encoding(),
            zero,
            vector@[place],
            generators@[place],
        ) by {
            assert(vector.values@[place].wf());
            lemma_update_of_neutral(zero, vector@[place], generators@[place]);
        }
    }
    Ok(c)
}

/// Moves `old_commitment` from a vector that holds `old_value` at `index` to
/// the vector that holds `new_value` there and is the same elsewhere. Fails
/// with `InvalidInput` exactly when `index` is not below the number of
/// generators. Where the two values are the same, a commitment in normal form
/// comes back unchanged.
pub fn update(
    old_commitment: &Point,
    index: usize,
    old_value: &Scalar,
    new_value: &Scalar,
    generators: &GeneratorSet,
) -> (r: Result<Point, CommitError>)
    requires
        old_commitment.wf(),
        old_value.wf(),
        new_value.wf(),
        generators.wf(),
    ensures
        index < generators@.len() ==> r is Ok,
        r matches Ok(c) ==> {
            &&& index < generators@.len()
            &&& c.wf()
            &&& is_normal(c@)
            &&& c@ == updated_commitment(
                old_commitment@,
                old_value@,
                new_value@,
                generators@[index as int],
            )
            &&& old_value@ == new_value@ && is_normal(old_commitment@) ==> c@ == old_commitment@
        },
        r matches Err(e) ==> e == CommitError::InvalidInput && index >= generators@.len(),
{
    if index >= generators.len() {
        return Err(CommitError::InvalidInput);
    }
    let delta = new_value.sub(old_value);
    proof {
        if old_value@ == new_value@ {
            lemma_zero_encoding(32);
        }
    }
    let term = generators.get(index).mul(&delta);
    let sum = old_commitment.add(&term);
    Ok(sum.normalize())
}

/// Commits to the vector that `scalars` encodes and encodes the commitment.
/// Fails with `InvalidInput` unless there are 256 buffers and 256 generators,
/// and otherwise with `DecodingError` unless every buffer is a canonical
/// scalar encoding. For 256 encodings of zero the commitment is the neutral
/// element.
pub fn commit_encoded(scalars: &Vec<Vec<u8>>, generators: &GeneratorSet) -> (r: Result<
    Vec<u8>,
    CommitError,
>)
    requires
        generators.wf(),
    ensures
        match r {
            Ok(out) => {
                &&& scalars@.len() == 256
                &&& generators@.len() == 256
                &&& all_scalar_encodings(buffers_view(scalars@))
                &&& out@ == commitment_of(buffers_view(scalars@), generators@)
                &&& is_normal(out@)
                &&& zero_up_to(buffers_view(scalars@), 256) ==> out@ == identity_encoding()
            },
            Err(CommitError::InvalidInput) => scalars@.len() != 256 || generators@.len() != 256,
            Err(CommitError::DecodingError) => {
                &&& scalars@.len() == 256
                &&& generators@.len() == 256
                &&& !all_scalar_encodings(buffers_view(scalars@))
            },
        },
{
    if scalars.len() != DOMAIN_SIZE || generators.len() != DOMAIN_SIZE {
        return Err(CommitError::InvalidInput);
    }
    let vector = match LagrangeVector::from_encoded(scalars) {
        Ok(v) => v,
        Err(_) => {
            return Err(CommitError::DecodingError);
        },
    };
    match commit(&vector, generators) {
        Ok(c) => Ok(c.encode()),
        Err(_) => Err(CommitError::InvalidInput),
    }
}

/// Decodes an earlier commitment and two values, updates the commitment at
/// `index` and encodes the result. Fails with `InvalidInput` unless `index`
/// is at least 0 and below 256 and there are 256 generators, and otherwise
/// with `DecodingError` unless `old` and `new` are canonical scalar encodings
/// and `old_commitment` is accepted as a point.
pub fn update_commitment_encoded(
    index: i64,
    old: &Vec<u8>,
    new: &Vec<u8>,
    old_commitment: &Vec<u8>,
    generators: &GeneratorSet,
) -> (r: Result<Vec<u8>, CommitError>)
    requires
        generators.wf(),
    ensures
        match r {
            Ok(out) => {
                &&& 0 <= index < 256
                &&& generators@.len() == 256
                &&& is_scalar_encoding(old@)
                &&& is_scalar_encoding(new@)
                &&& is_point_encoding(old_commitment@)
                &&& out@ == updated_commitment(
                    old_commitment@,
                    old@,
                    new@,
                    generators@[index as int],
                )
                &&& is_normal(out@)
                &&& old@ == new@ && is_normal(old_commitment@) ==> out@ == old_commitment@
            },
            Err(CommitError::InvalidInput) => !(0 <= index < 256) || generators@.len() != 256,
            Err(CommitError::DecodingError) => {
                &&& 0 <= index < 256
                &&& generators@.len() == 256
                &&& !(is_scalar_encoding(old@) && is_scalar_encoding(new@) && is_point_encoding(
                    old_commitment@,
                ))
            },
        },
{
    if index < 0 || index >= 256 || generators.len() != DOMAIN_SIZE {
        return Err(CommitError::InvalidInput);
    }
    let place: usize = index as usize;
    let old_value = match Scalar::decode(old) {
        Ok(s) => s,
        Err(_) => {
            return Err(CommitError::DecodingError);
        },
    };
    let new_value = match Scalar::decode(new) {
        Ok(s) => s,
        Err(_) => {
            return Err(CommitError::DecodingError);
        },
    };
    let commitment = match Point::decode(old_commitment) {
        Ok(p) => p,
        Err(_) => {
            return Err(CommitError::DecodingError);
        },
    };
    match update(&commitment, place, &old_value, &new_value, generators) {
        Ok(c) => Ok(c.encode()),
        Err(_) => Err(CommitError::InvalidInput),
    }
}

} // verus!
