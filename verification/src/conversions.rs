//! Carrying elements between the two representations.
//!
//! Every conversion is total on well-formed values, keeps the number or the
//! point that the value stands for, and is undone by the conversion in the
//! other direction.

use crate::encoding::{
    be_value, fq_chunk, le_bytes_of_limbs, le_bytes_to_limbs, le_value,
    lemma_le_bytes_of_limbs_value, lemma_le_bytes_round_trip, lemma_limbs_round_trip,
    lemma_reorder_reversed_chunk, lemma_reorder_reversed_inverse, limbs_of_le_bytes,
    limbs_to_le_bytes, reorder_reversed, reorder_reversed_bytes,
};
use crate::fast::{
    fq12_fast_value, fq12_order, fq12_place, g1_order, g2_order, BlstFp12, BlstFr, BlstG1Affine,
    BlstG2Affine,
};
use crate::field::{canonical_be, canonical_le, fq_modulus};
use crate::point::{
    inverse_orders, lemma_point_fast_round_trip, lemma_point_reference_round_trip,
    lemma_point_to_fast, lemma_point_to_reference, point_to_fast, point_to_fast_bytes,
    point_to_reference, point_to_reference_bytes,
};
use crate::reference::{fq12_reference_value, Fq12, Fr, G1Affine, G2Affine};
use vstd::prelude::*;

verus! {

/// The fast spelling of the scalar with the limbs `limbs`.
pub open spec fn fr_to_fast(limbs: Seq<u64>) -> Seq<u8> {
    le_bytes_of_limbs(limbs)
}

/// The limbs of the scalar with the fast spelling `bytes`.
pub open spec fn fr_to_reference(bytes: Seq<u8>) -> Seq<u64> {
    limbs_of_le_bytes(bytes)
}

/// The fast spelling of the point of the first group with the reference
/// spelling `b`.
pub open spec fn g1_to_fast(b: Seq<u8>) -> Seq<u8> {
    point_to_fast(b, g1_order())
}

/// The reference spelling of the point of the first group with the fast
/// spelling `b`.
pub open spec fn g1_to_reference(b: Seq<u8>) -> Seq<u8> {
    point_to_reference(b, g1_order())
}

/// The fast spelling of the point of the second group with the reference
/// spelling `b`.
pub open spec fn g2_to_fast(b: Seq<u8>) -> Seq<u8> {
    point_to_fast(b, g2_order())
}

/// The reference spelling of the point of the second group with the fast
/// spelling `b`.
pub open spec fn g2_to_reference(b: Seq<u8>) -> Seq<u8> {
    point_to_reference(b, g2_order())
}

/// The fast spelling of the target-field element with the reference
/// spelling `b`.
pub open spec fn fq12_to_fast(b: Seq<u8>) -> Seq<u8> {
    reorder_reversed(b, fq12_order())
}

/// The reference spelling of the target-field element with the fast
/// spelling `b`.
pub open spec fn fq12_to_reference(b: Seq<u8>) -> Seq<u8> {
    reorder_reversed(b, fq12_place())
}

/// In the first group each block keeps its place, which is its own inverse.
pub proof fn lemma_g1_order()
    ensures
        inverse_orders(g1_order(), g1_order()),
{
}

/// In the second group the two parts of each coordinate change places,
/// which is its own inverse.
pub proof fn lemma_g2_order()
    ensures
        inverse_orders(g2_order(), g2_order()),
{
}

/// The two orders of the twelve coefficients undo each other.
pub proof fn lemma_fq12_order()
    ensures
        inverse_orders(fq12_order(), fq12_place()),
{
}

/// Turning a canonical reference spelling of a target-field element into
/// the fast one gives a canonical spelling of the same coefficients.
pub proof fn lemma_fq12_to_fast(b: Seq<u8>)
    requires
        b.len() == 576,
        canonical_le(b, 12),
    ensures
        fq12_to_fast(b).len() == 576,
        canonical_be(fq12_to_fast(b), 12),
        fq12_fast_value(fq12_to_fast(b)) == fq12_reference_value(b),
        fq12_to_reference(fq12_to_fast(b)) == b,
{
    lemma_fq12_order();
    let out = fq12_to_fast(b);
    assert forall|k: int| 0 <= k < 12 implies be_value(#[trigger] fq_chunk(out, k))
        < fq_modulus() by {
        lemma_reorder_reversed_chunk(b, fq12_order(), k);
        assert(le_value(fq_chunk(b, fq12_order()[k] as int)) < fq_modulus());
    }
    assert forall|k: int| 0 <= k < 12 implies fq12_fast_value(out)[k] == fq12_reference_value(
        b,
    )[k] by {
        lemma_reorder_reversed_chunk(b, fq12_order(), fq12_place()[k] as int);
    }
    assert(fq12_fast_value(out) =~= fq12_reference_value(b));
    lemma_reorder_reversed_inverse(b, fq12_order(), fq12_place());
}

/// Turning a canonical fast spelling of a target-field element into the
/// reference one gives a canonical spelling of the same coefficients.
pub proof fn lemma_fq12_to_reference(b: Seq<u8>)
    requires
        b.len() == 576,
        canonical_be(b, 12),
    ensures
        fq12_to_reference(b).len() == 576,
        canonical_le(fq12_to_reference(b), 12),
        fq12_reference_value(fq12_to_reference(b)) == fq12_fast_value(b),
        fq12_to_fast(fq12_to_reference(b)) == b,
{
    lemma_fq12_order();
    let out = fq12_to_reference(b);
    assert forall|k: int| 0 <= k < 12 implies le_value(#[trigger] fq_chunk(out, k))
        < fq_modulus() by {
        lemma_reorder_reversed_chunk(b, fq12_place(), k);
        assert(be_value(fq_chunk(b, fq12_place()[k] as int)) < fq_modulus());
    }
    assert forall|k: int| 0 <= k < 12 implies fq12_reference_value(out)[k] == fq12_fast_value(
        b,
    )[k] by {
        lemma_reorder_reversed_chunk(b, fq12_place(), k);
    }
    assert(fq12_reference_value(out) =~= fq12_fast_value(b));
    lemma_reorder_reversed_inverse(b, fq12_place(), fq12_order());
}

/// A scalar in the fast representation.
pub fn bls_fr_to_blst_fr(s: &Fr) -> (r: BlstFr)
    ensures
        r@ == fr_to_fast(s@),
        r.value() == s.value(),
{
    proof {
        use_type_invariant(s);
        lemma_le_bytes_of_limbs_value(s@);
    }
    let limbs: [u64; 4] = s.limbs();
    BlstFr::from_wf_bytes(limbs_to_le_bytes::<4, 32>(&limbs))
}

/// A scalar in the reference representation.
pub fn blst_fr_to_bls_fr(s: &BlstFr) -> (r: Fr)
    ensures
        r@ == fr_to_reference(s@),
        r.value() == s.value(),
{
    proof {
        use_type_invariant(s);
        lemma_le_bytes_round_trip(s@);
        lemma_le_bytes_of_limbs_value(limbs_of_le_bytes(s@));
    }
    let bytes: [u8; 32] = s.to_bytes();
    Fr::from_wf_limbs(le_bytes_to_limbs::<32, 4>(&bytes))
}

/// A point of the first group in the fast representation.
pub fn bls_g1_affine_to_blst_g1_affine(pt: &G1Affine) -> (r: BlstG1Affine)
    ensures
        r@ == g1_to_fast(pt@),
        r.value() == pt.value(),
{
    proof {
        use_type_invariant(pt);
        lemma_g1_order();
        lemma_point_to_fast(pt@, g1_order(), g1_order());
    }
    let order: [usize; 2] = [0, 1];
    assert(order@ =~= g1_order());
    let bytes: [u8; 96] = pt.to_bytes();
    BlstG1Affine::from_wf_bytes(point_to_fast_bytes::<96>(&bytes, order.as_slice()))
}

/// A point of the first group in the reference representation.
pub fn blst_g1_affine_to_bls_g1_affine(pt: &BlstG1Affine) -> (r: G1Affine)
    ensures
        r@ == g1_to_reference(pt@),
        r.value() == pt.value(),
{
    proof {
        use_type_invariant(pt);
        lemma_g1_order();
        lemma_point_to_reference(pt@, g1_order(), g1_order());
    }
    let order: [usize; 2] = [0, 1];
    assert(order@ =~= g1_order());
    let bytes: [u8; 96] = pt.to_bytes();
    G1Affine::from_wf_bytes(point_to_reference_bytes::<96>(&bytes, order.as_slice()))
}

/// A point of the second group in the fast representation.
pub fn bls_g2_affine_to_blst_g2_affine(pt: &G2Affine) -> (r: BlstG2Affine)
    ensures
        r@ == g2_to_fast(pt@),
        r.value() == pt.value(),
{
    proof {
        use_type_invariant(pt);
        lemma_g2_order();
        lemma_point_to_fast(pt@, g2_order(), g2_order());
    }
    let order: [usize; 4] = [1, 0, 3, 2];
    assert(order@ =~= g2_order());
    let bytes: [u8; 192] = pt.to_bytes();
    BlstG2Affine::from_wf_bytes(point_to_fast_bytes::<192>(&bytes, order.as_slice()))
}

/// A point of the second group in the reference representation.
pub fn blst_g2_affine_to_bls_g2_affine(pt: &BlstG2Affine) -> (r: G2Affine)
    ensures
        r@ == g2_to_reference(pt@),
        r.value() == pt.value(),
{
    proof {
        use_type_invariant(pt);
        lemma_g2_order();
        lemma_point_to_reference(pt@, g2_order(), g2_order());
    }
    let order: [usize; 4] = [1, 0, 3, 2];
    assert(order@ =~= g2_order());
    let bytes: [u8; 192] = pt.to_bytes();
    G2Affine::from_wf_bytes(point_to_reference_bytes::<192>(&bytes, order.as_slice()))
}

/// An element of the target field in the fast representation.
pub fn bls_fq12_to_blst_fp12(f: &Fq12) -> (r: BlstFp12)
    ensures
        r@ == fq12_to_fast(f@),
        r.value() == f.value(),
{
    proof {
        use_type_invariant(f);
        lemma_fq12_order();
        lemma_fq12_to_fast(f@);
    }
    let order: [usize; 12] = [0, 1, 6, 7, 2, 3, 8, 9, 4, 5, 10, 11];
    assert(order@ =~= fq12_order());
    let bytes: [u8; 576] = f.to_bytes();
    BlstFp12::from_wf_bytes(reorder_reversed_bytes::<576>(&bytes, order.as_slice()))
}

/// An element of the target field in the reference representation.
pub fn blst_fp12_to_bls_fq12(f: &BlstFp12) -> (r: Fq12)
    ensures
        r@ == fq12_to_reference(f@),
        r.value() == f.value(),
{
    proof {
        use_type_invariant(f);
        lemma_fq12_order();
        lemma_fq12_to_reference(f@);
    }
    let place: [usize; 12] = [0, 1, 4, 5, 8, 9, 2, 3, 6, 7, 10, 11];
    assert(place@ =~= fq12_place());
    let bytes: [u8; 576] = f.to_bytes();
    Fq12::from_wf_bytes(reorder_reversed_bytes::<576>(&bytes, place.as_slice()))
}

/// A scalar that goes to the fast representation and back is unchanged, and
/// so is one that goes the other way round.
pub proof fn lemma_fr_round_trip(s: Fr, t: BlstFr)
    requires
        s.wf(),
        t.wf(),
    ensures
        fr_to_reference(fr_to_fast(s@)) == s@,
        fr_to_fast(fr_to_reference(t@)) == t@,
{
    lemma_limbs_round_trip(s@);
    lemma_le_bytes_round_trip(t@);
}

/// A point of the first group that goes to the fast representation and back
/// is unchanged, and so is one that goes the other way round.
pub proof fn lemma_g1_round_trip(p: G1Affine, q: BlstG1Affine)
    requires
        p.wf(),
        q.wf(),
    ensures
        g1_to_reference(g1_to_fast(p@)) == p@,
        g1_to_fast(g1_to_reference(q@)) == q@,
{
    lemma_g1_order();
    lemma_point_reference_round_trip(p@, g1_order(), g1_order());
    lemma_point_fast_round_trip(q@, g1_order(), g1_order());
}

/// A point of the second group that goes to the fast representation and
/// back is unchanged, and so is one that goes the other way round.
pub proof fn lemma_g2_round_trip(p: G2Affine, q: BlstG2Affine)
    requires
        p.wf(),
        q.wf(),
    ensures
        g2_to_reference(g2_to_fast(p@)) == p@,
        g2_to_fast(g2_to_reference(q@)) == q@,
{
    lemma_g2_order();
    lemma_point_reference_round_trip(p@, g2_order(), g2_order());
    lemma_point_fast_round_trip(q@, g2_order(), g2_order());
}

/// An element of the target field that goes to the fast representation and
/// back is unchanged, and so is one that goes the other way round.
pub proof fn lemma_fq12_round_trip(f: Fq12, g: BlstFp12)
    requires
        f.wf(),
        g.wf(),
    ensures
        fq12_to_reference(fq12_to_fast(f@)) == f@,
        fq12_to_fast(fq12_to_reference(g@)) == g@,
{
    lemma_fq12_to_fast(f@);
    lemma_fq12_to_reference(g@);
}

} // verus!
