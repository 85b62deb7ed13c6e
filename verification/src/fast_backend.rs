//! The pairing backend of the fast pipeline.
//!
//! Nothing in this module is proved. Each function hands well-formed values
//! to the `blst` library and brings the answer back as plain bytes or limbs;
//! its contract names the answer as a function of what was handed over.
//!
//! The library is asked for with its `no-threads` feature. With threads the
//! path that a scalar multiplication takes would depend on the number of
//! processors, and the two paths agree only on points of the prime-order
//! group.

use crate::fast::{BlstFp12, BlstFr, BlstG1Affine, BlstG2Affine, BlstMillerValue};
use blst::{blst_fp, blst_fp12, blst_fp2, blst_fp6, blst_p1_affine, blst_p2_affine, MultiPoint};
use vstd::prelude::*;

verus! {

/// What [`blst_miller_loop`] returns for the point `q` of the second group
/// and the point `p` of the first, both as bytes: nothing where the library
/// refuses one of the two spellings.
pub uninterp spec fn blst_miller_loop_result(q: Seq<u8>, p: Seq<u8>) -> Option<Seq<u64>>;

/// What [`blst_fp12_mul`] returns for the limbs `a` and `b`.
pub uninterp spec fn blst_fp12_mul_result(a: Seq<u64>, b: Seq<u64>) -> Seq<u64>;

/// What [`blst_final_exp`] returns for the limbs `f`.
pub uninterp spec fn blst_final_exp_result(f: Seq<u64>) -> Seq<u8>;

/// What [`blst_g1_mult`] returns for the point `p` and the scalar `s`, both
/// as bytes: nothing where the library refuses the point's spelling.
pub uninterp spec fn blst_g1_mult_result(p: Seq<u8>, s: Seq<u8>) -> Option<Seq<u8>>;

/// What [`blst_g1_add`] returns for the points `a` and `b`, both as bytes:
/// nothing where the library refuses one of the two spellings.
pub uninterp spec fn blst_g1_add_result(a: Seq<u8>, b: Seq<u8>) -> Option<Seq<u8>>;

/// The Miller loop of one pair of points.
///
/// Reads `p` with `blst::min_pk::PublicKey::deserialize` and `q` with
/// `blst::min_sig::PublicKey::deserialize`, which refuse coordinates that
/// are not on the curve and, in the first group, the two points whose `x`
/// is zero, and calls `blst_fp12::miller_loop` on the two. The contract
/// claims only that the outcome is a function of the two byte strings.
#[verifier::external_body]
pub(crate) fn blst_miller_loop(q: &BlstG2Affine, p: &BlstG1Affine) -> (r: Option<BlstMillerValue>)
    ensures
        match r {
            Some(v) => blst_miller_loop_result(q@, p@) == Some(v@),
            None => blst_miller_loop_result(q@, p@).is_none(),
        },
{
    let p: blst_p1_affine = blst::min_pk::PublicKey::deserialize(&p.bytes).ok()?.into();
    let q: blst_p2_affine = blst::min_sig::PublicKey::deserialize(&q.bytes).ok()?.into();
    let f = blst_fp12::miller_loop(&q, &p);
    Some(BlstMillerValue { limbs: f.fp6.map(|a| a.fp2.map(|b| b.fp.map(|c| c.l))) })
}

/// The product of two Miller-loop values.
///
/// Calls the `Mul` of `blst_fp12`. The contract claims only that the product
/// is a function of the two factors.
#[verifier::external_body]
pub(crate) fn blst_fp12_mul(a: &BlstMillerValue, b: &BlstMillerValue) -> (r: BlstMillerValue)
    ensures
        r@ == blst_fp12_mul_result(a@, b@),
{
    let fp12 = |v: &BlstMillerValue| blst_fp12 {
        fp6: v.limbs.map(|u| blst_fp6 { fp2: u.map(|w| blst_fp2 { fp: w.map(|l| blst_fp { l }) }) }),
    };
    let f = fp12(a) * fp12(b);
    BlstMillerValue { limbs: f.fp6.map(|u| u.fp2.map(|w| w.fp.map(|c| c.l))) }
}

/// The final exponentiation of a Miller-loop value.
///
/// Calls `blst_fp12::final_exp` and writes the outcome with
/// `blst_fp12::to_bendian`, which gives canonical coefficients. The contract
/// claims that, and that the outcome is a function of the limbs.
#[verifier::external_body]
pub(crate) fn blst_final_exp(f: &BlstMillerValue) -> (r: BlstFp12)
    ensures
        r.wf(),
        r@ == blst_final_exp_result(f@),
{
    let x = blst_fp12 {
        fp6: f.limbs.map(|u| blst_fp6 { fp2: u.map(|w| blst_fp2 { fp: w.map(|l| blst_fp { l }) }) }),
    };
    BlstFp12 { bytes: x.final_exp().to_bendian() }
}

/// The multiple of a point of the first group by a scalar.
///
/// Reads `p` with `blst::min_pk::PublicKey::deserialize`, which refuses
/// coordinates that are not on the curve and the two points whose `x` is
/// zero, calls `MultiPoint::mult` on that one point with the 255 low bits of
/// `s`, and writes the outcome, brought to affine coordinates, with
/// `PublicKey::serialize`. The library is built without threads, so `mult`
/// always hands the point to `blst_p1s_mult_pippenger`, which for a single
/// point runs the plain windowed multiplication: the same steps on every
/// machine and for every point of the curve, in the group of prime order or
/// not. The contract claims that what is written is well formed and a
/// function of the two byte strings.
#[verifier::external_body]
pub(crate) fn blst_g1_mult(p: &BlstG1Affine, s: &BlstFr) -> (r: Option<BlstG1Affine>)
    ensures
        match r {
            Some(v) => v.wf() && blst_g1_mult_result(p@, s@) == Some(v@),
            None => blst_g1_mult_result(p@, s@).is_none(),
        },
{
    let p: blst_p1_affine = blst::min_pk::PublicKey::deserialize(&p.bytes).ok()?.into();
    let product = [p].mult(&s.bytes, 255);
    let out = blst::min_pk::AggregatePublicKey::from(product).to_public_key();
    Some(BlstG1Affine { bytes: out.serialize() })
}

/// The sum of two points of the first group.
///
/// Reads both with `blst::min_pk::PublicKey::deserialize`, which refuses
/// coordinates that are not on the curve and the two points whose `x` is
/// zero, adds the second to the first with
/// `AggregatePublicKey::add_public_key`, which is asked not to validate and
/// so cannot fail, and writes the outcome, brought to affine coordinates,
/// with `PublicKey::serialize`. The contract claims that what is written is
/// well formed and a function of the two byte strings.
#[verifier::external_body]
pub(crate) fn blst_g1_add(a: &BlstG1Affine, b: &BlstG1Affine) -> (r: Option<BlstG1Affine>)
    ensures
        match r {
            Some(v) => v.wf() && blst_g1_add_result(a@, b@) == Some(v@),
            None => blst_g1_add_result(a@, b@).is_none(),
        },
{
    let a = blst::min_pk::PublicKey::deserialize(&a.bytes).ok()?;
    let b = blst::min_pk::PublicKey::deserialize(&b.bytes).ok()?;
    let mut sum = blst::min_pk::AggregatePublicKey::from_public_key(&a);
    sum.add_public_key(&b, false).ok()?;
    Some(BlstG1Affine { bytes: sum.to_public_key().serialize() })
}

} // verus!
