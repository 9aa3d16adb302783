//! The public generators: an ordered list of curve points found from a seed
//! by hashing the seed with a running counter until enough hashes have given
//! a point.

use vstd::prelude::*;
use sha2::{Digest, Sha256};
use crate::curve::{
    identity_encoding, is_normal, normal_form, point_from_digest, point_sum, Point,
};
use crate::encoding::{be_bytes, be_encoding, join_bytes};

verus! {

/// Number of coordinates of a committed vector, and of generators.
pub const DOMAIN_SIZE: usize = 256;

/// The SHA-256 digest of `message`.
pub uninterp spec fn sha256_digest(message: Seq<u8>) -> Seq<u8>;

/// The seed from which the generators in common use are derived: the ASCII
/// text `eth_verkle_oct_2021`.
pub open spec fn pedersen_seed_bytes() -> Seq<u8> {
    seq![
        0x65u8, 0x74u8, 0x68u8, 0x5fu8, 0x76u8, 0x65u8, 0x72u8, 0x6bu8, 0x6cu8, 0x65u8, 0x5fu8,
        0x6fu8, 0x63u8, 0x74u8, 0x5fu8, 0x32u8, 0x30u8, 0x32u8, 0x31u8,
    ]
}

/// What is hashed for `counter`: the seed, then the counter as eight bytes,
/// most significant first.
pub open spec fn hash_input(seed: Seq<u8>, counter: u64) -> Seq<u8> {
    seed + be_encoding(counter as nat, 8)
}

/// `p` taken four times, the curve's cofactor, by doubling twice.
pub open spec fn cofactor_cleared(p: Seq<u8>) -> Seq<u8> {
    point_sum(point_sum(p, p), point_sum(p, p))
}

/// The generator that `counter` gives, if it gives one: the point found from
/// the hash, unless that is the neutral element, taken four times and put in
/// normal form.
pub open spec fn generator_at(seed: Seq<u8>, counter: u64) -> Option<Seq<u8>> {
    accepted(point_from_digest(sha256_digest(hash_input(seed, counter))))
}

/// The first `count` generators that the counters from `counter` upwards
/// give, in order; `None` if the 64-bit counters end before that.
pub open spec fn generators_from(seed: Seq<u8>, counter: nat, count: nat) -> Option<Seq<Seq<u8>>>
    decreases 0x1_0000_0000_0000_0000 - counter, count,
{
    if count == 0 {
        Some(Seq::empty())
    } else if counter >= 0x1_0000_0000_0000_0000 {
        None
    } else {
        match generator_at(seed, counter as u64) {
            Some(g) => prepend(seq![g], generators_from(seed, counter + 1, (count - 1) as nat)),
            None => generators_from(seed, counter + 1, count),
        }
    }
}

/// `head` followed by `tail`, where there is a tail.
pub open spec fn prepend(head: Seq<Seq<u8>>, tail: Option<Seq<Seq<u8>>>) -> Option<Seq<Seq<u8>>> {
    match tail {
        Some(rest) => Some(head + rest),
        None => None,
    }
}

/// The generators derived from `seed`: `generators_from` the counter 0.
pub open spec fn derived(seed: Seq<u8>, count: nat) -> Option<Seq<Seq<u8>>> {
    generators_from(seed, 0, count)
}

/// Two derivations from one seed, of one count, give the same generators in
/// the same order.
pub proof fn lemma_derivation_is_deterministic(
    first: GeneratorSet,
    second: GeneratorSet,
    seed: Seq<u8>,
    count: nat,
)
    requires
        Some(first@) == derived(seed, count),
        Some(second@) == derived(seed, count),
    ensures
        first@ == second@,
{
}

/// An ordered list of generators, fixed once made.
pub struct GeneratorSet {
    points: Vec<Point>,
}

impl View for GeneratorSet {
    type V = Seq<Seq<u8>>;

    /// The encodings of the generators, in order.
    closed spec fn view(&self) -> Seq<Seq<u8>> {
        Seq::new(self.points@.len(), |i: int| self.points@[i]@)
    }
}

impl GeneratorSet {
    /// Every generator holds canonical coordinates, in normal form.
    pub closed spec fn wf(&self) -> bool {
        forall|i: int|
            0 <= i < self.points@.len() ==> (#[trigger] self.points@[i]).wf() && is_normal(
                self.points@[i]@,
            )
    }

    /// The generators derived from `seed`, `count` of them. `None` only if
    /// the 64-bit counters end before `count` of them gave a point.
    pub fn derive(seed: &Vec<u8>, count: usize) -> (r: Option<GeneratorSet>)
        ensures
            r is Some == derived(seed@, count as nat) is Some,
            r matches Some(set) ==> set.wf() && Some(set@) == derived(seed@, count as nat)
                && set@.len() == count,
    {
        let mut points: Vec<Point> = Vec::new();
        if count == 0 {
            let set = GeneratorSet { points };
            assert(set@ =~= Seq::<Seq<u8>>::empty());
            return Some(set);
        }
        let mut counter: u64 = 0;
        let ghost mut found: Seq<Seq<u8>> = Seq::empty();
        loop
            invariant
                points@.len() < count,
                found.len() == points@.len(),
                forall|i: int|
                    0 <= i < points@.len() ==> (#[trigger] points@[i]).wf() && is_normal(
                        points@[i]@,
                    ),
                forall|i: int| 0 <= i < points@.len() ==> (#[trigger] points@[i])@ == found[i],
                derived(seed@, count as nat) == prepend(
                    found,
                    generators_from(seed@, counter as nat, (count - points@.len()) as nat),
                ),
            decreases u64::MAX - counter,
        {
            let ghost before = found;
            let ghost rest_count = (count - points@.len()) as nat;
            match generator(seed, counter) {
                Some(g) => {
                    proof {
                        found = found.push(g@);
                        let tail = generators_from(seed@, counter as nat + 1, (rest_count - 1) as nat);
                        if tail is Some {
                            assert(before + (seq![g@] + tail.unwrap()) =~= found + tail.unwrap());
                        }
                    }
                    points.push(g);
                },
                None => {},
            }
            assert(derived(seed@, count as nat) == prepend(
                found,
                generators_from(seed@, counter as nat + 1, (count - points@.len()) as nat),
            ));
            if points.len() == count {
                let set = GeneratorSet { points };
                proof {
                    assert(generators_from(seed@, counter as nat + 1, 0) == Some(
                        Seq::<Seq<u8>>::empty(),
                    ));
                    assert(found + Seq::<Seq<u8>>::empty() =~= found);
                    assert(set@ =~= found);
                }
                return Some(set);
            }
            if counter == u64::MAX {
                return None;
            }
            counter = counter + 1;
        }
    }

    /// The 256 generators in common use, derived from the published seed.
    pub fn standard() -> (r: Option<GeneratorSet>)
        ensures
            r is Some == derived(pedersen_seed_bytes(), 256) is Some,
            r matches Some(set) ==> set.wf() && Some(set@) == derived(pedersen_seed_bytes(), 256)
                && set@.len() == 256,
    {
        let seed = pedersen_seed();
        GeneratorSet::derive(&seed, DOMAIN_SIZE)
    }

    /// How many generators there are.
    pub fn len(&self) -> (n: usize)
        ensures
            n == self@.len(),
    {
        self.points.len()
    }

    /// The generator at `index`.
    pub fn get(&self, index: usize) -> (p: &Point)
        requires
            self.wf(),
            index < self@.len(),
        ensures
            p.wf(),
            is_normal(p@),
            p@ == self@[index as int],
    {
        &self.points[index]
    }
}

/// The published seed as bytes.
pub fn pedersen_seed() -> (seed: Vec<u8>)
    ensures
        seed@ == pedersen_seed_bytes(),
{
    let seed: Vec<u8> = vec![
        0x65u8, 0x74u8, 0x68u8, 0x5fu8, 0x76u8, 0x65u8, 0x72u8, 0x6bu8, 0x6cu8, 0x65u8, 0x5fu8,
        0x6fu8, 0x63u8, 0x74u8, 0x5fu8, 0x32u8, 0x30u8, 0x32u8, 0x31u8,
    ];
    assert(seed@ =~= pedersen_seed_bytes());
    seed
}

/// The generator that `counter` gives under `seed`, if it gives one.
pub fn generator(seed: &Vec<u8>, counter: u64) -> (r: Option<Point>)
    ensures
        r is Some == generator_at(seed@, counter) is Some,
        r matches Some(g) ==> g.wf() && is_normal(g@) && Some(g@) == generator_at(seed@, counter),
{
    let suffix = be_bytes(counter, 8);
    let message = join_bytes(seed, &suffix);
    let digest = sha256(&message);
    accept_candidate(Point::from_hash(&digest))
}

/// What becomes of a candidate: none stays none, the neutral element is
/// turned away, any other point is taken four times and put in normal form.
pub open spec fn accepted(candidate: Option<Seq<u8>>) -> Option<Seq<u8>> {
    match candidate {
        Some(p) => if p == identity_encoding() {
            None
        } else {
            Some(normal_form(cofactor_cleared(p)))
        },
        None => None,
    }
}

/// Turns a candidate into a generator, or turns it away.
pub fn accept_candidate(candidate: Option<Point>) -> (r: Option<Point>)
    requires
        candidate matches Some(p) ==> p.wf(),
    ensures
        r is Some == (candidate matches Some(p) && p@ != identity_encoding()),
        r matches Some(g) ==> g.wf() && is_normal(g@) && g@ == normal_form(
            cofactor_cleared(candidate.unwrap()@),
        ),
{
    match candidate {
        Some(p) => {
            if p.is_identity() {
                None
            } else {
                let doubled = p.add(&p);
                Some(doubled.add(&doubled).normalize())
            }
        },
        None => None,
    }
}

/// Calls `Sha256::digest` of sha2 on the message and hands back the 32 bytes
/// of the digest, under the name `sha256_digest`.
#[verifier::external_body]
fn sha256(message: &Vec<u8>) -> (digest: Vec<u8>)
    ensures
        digest@ == sha256_digest(message@),
        digest@.len() == 32,
{
    Sha256::digest(message.as_slice()).to_vec()
}

} // verus!
