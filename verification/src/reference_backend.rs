//! The curve arithmetic of the reference pipeline.
//!
//! Nothing in this module is proved. Each function hands well-formed values
//! to the arkworks libraries and brings the answer back as plain bytes; its
//! contract says what the answer is, or names it as a function of what was
//! handed over. The libraries read every well-formed spelling, so no
//! function here fails on what its contract admits.

use crate::point::g2_neg_value;
use crate::reference::{Fq12, Fr, G1Affine, G2Affine};
use ark_bls12_381::Bls12_381;
use ark_ec::{AffineCurve, PairingEngine, ProjectiveCurve};
use ark_serialize::{CanonicalDeserialize, CanonicalSerialize};
use core::ops::Neg;
use vstd::prelude::*;

verus! {

/// What [`ark_g1_mul`] returns for the point `p`, as bytes, and the scalar
/// `s`, as limbs.
pub uninterp spec fn ark_g1_mul_result(p: Seq<u8>, s: Seq<u64>) -> Seq<u8>;

/// What [`ark_g1_add`] returns for the points `a` and `b`, as bytes.
pub uninterp spec fn ark_g1_add_result(a: Seq<u8>, b: Seq<u8>) -> Seq<u8>;

/// What [`ark_miller_loop`] returns for the pairs `pairs`, each a point of
/// the first group and a point of the second, as bytes.
pub uninterp spec fn ark_miller_loop_result(pairs: Seq<(Seq<u8>, Seq<u8>)>) -> Seq<u8>;

/// What [`ark_final_exponentiation`] returns for the element `f`, as bytes.
pub uninterp spec fn ark_final_exponentiation_result(f: Seq<u8>) -> Option<Seq<u8>>;

/// The pairs as byte strings.
pub open spec fn pairs_view(pairs: Seq<(G1Affine, G2Affine)>) -> Seq<(Seq<u8>, Seq<u8>)> {
    pairs.map_values(|pair: (G1Affine, G2Affine)| (pair.0@, pair.1@))
}

/// The multiple of a point of the first group by a scalar.
///
/// Calls `AffineCurve::mul` with the limbs of `s` and brings the outcome to
/// affine coordinates with `ProjectiveCurve::into_affine`. The contract
/// claims that what is written is well formed and a function of the bytes of
/// `p` and the limbs of `s`.
#[verifier::external_body]
pub(crate) fn ark_g1_mul(p: &G1Affine, s: &Fr) -> (r: G1Affine)
    requires
        p.wf(),
    ensures
        r.wf(),
        r@ == ark_g1_mul_result(p@, s@),
{
    let point = ark_bls12_381::G1Affine::deserialize_unchecked(&p.bytes[..]).unwrap();
    let product = point.mul(ark_ff::BigInteger256(s.limbs)).into_affine();
    let mut bytes = [0u8; 96];
    product.serialize_uncompressed(&mut bytes[..]).unwrap();
    G1Affine { bytes }
}

/// The sum of two points of the first group.
///
/// Calls the `Add` of the affine point type. The contract claims that what
/// is written is well formed and a function of the bytes of `a` and `b`.
#[verifier::external_body]
pub(crate) fn ark_g1_add(a: &G1Affine, b: &G1Affine) -> (r: G1Affine)
    requires
        a.wf(),
        b.wf(),
    ensures
        r.wf(),
        r@ == ark_g1_add_result(a@, b@),
{
    let x = ark_bls12_381::G1Affine::deserialize_unchecked(&a.bytes[..]).unwrap();
    let y = ark_bls12_381::G1Affine::deserialize_unchecked(&b.bytes[..]).unwrap();
    let mut bytes = [0u8; 96];
    (x + y).serialize_uncompressed(&mut bytes[..]).unwrap();
    G1Affine { bytes }
}

/// The negative of a point of the second group.
///
/// Calls the `Neg` of the affine point type, which returns infinity as it
/// is and a finite point with `y` negated in the field. The contract claims
/// exactly that.
#[verifier::external_body]
pub(crate) fn ark_g2_neg(q: &G2Affine) -> (r: G2Affine)
    requires
        q.wf(),
    ensures
        r.wf(),
        r.value() == g2_neg_value(q.value()),
{
    let point = ark_bls12_381::G2Affine::deserialize_unchecked(&q.bytes[..]).unwrap();
    let mut bytes = [0u8; 192];
    point.neg().serialize_uncompressed(&mut bytes[..]).unwrap();
    G2Affine { bytes }
}

/// The Miller loop of several pairs of points at once.
///
/// Prepares every point with `From` and calls `PairingEngine::miller_loop`
/// on the pairs in their order. The contract claims that what is written has
/// canonical coefficients and is a function of the bytes of the pairs.
#[verifier::external_body]
pub(crate) fn ark_miller_loop(pairs: &Vec<(G1Affine, G2Affine)>) -> (r: Fq12)
    requires
        forall|i: int| 0 <= i < pairs@.len() ==> (#[trigger] pairs@[i]).0.wf() && pairs@[i].1.wf(),
    ensures
        r.wf(),
        r@ == ark_miller_loop_result(pairs_view(pairs@)),
{
    let prepared: Vec<_> = pairs.iter().map(|(p, q)| (
        ark_bls12_381::G1Affine::deserialize_unchecked(&p.bytes[..]).unwrap().into(),
        ark_bls12_381::G2Affine::deserialize_unchecked(&q.bytes[..]).unwrap().into(),
    )).collect();
    let mut bytes = [0u8; 576];
    Bls12_381::miller_loop(prepared.iter()).serialize(&mut bytes[..]).unwrap();
    Fq12 { bytes }
}

/// The final exponentiation of an element of the target field.
///
/// Calls `PairingEngine::final_exponentiation`, which returns nothing for
/// the element zero. The contract claims that what is written has canonical
/// coefficients and that the outcome is a function of the bytes of `f`.
#[verifier::external_body]
pub(crate) fn ark_final_exponentiation(f: &Fq12) -> (r: Option<Fq12>)
    requires
        f.wf(),
    ensures
        match r {
            Some(v) => v.wf() && ark_final_exponentiation_result(f@) == Some(v@),
            None => ark_final_exponentiation_result(f@).is_none(),
        },
{
    let x = ark_bls12_381::Fq12::deserialize(&f.bytes[..]).unwrap();
    let y = Bls12_381::final_exponentiation(&x)?;
    let mut bytes = [0u8; 576];
    y.serialize(&mut bytes[..]).unwrap();
    Some(Fq12 { bytes })
}

} // verus!
