//! Verification of Groth16 proofs.
//!
//! A verifying key is processed once: the pairing of its `alpha` and `beta`
//! is computed and its `gamma` and `delta` are negated. Each verification
//! then combines the public inputs with the key's `gamma_abc` points, runs
//! three Miller loops, multiplies what they leave behind, finishes with one
//! final exponentiation and compares the outcome with the pairing that was
//! kept.

use crate::conversions::{
    bls_fr_to_blst_fr, bls_g1_affine_to_blst_g1_affine, bls_g2_affine_to_blst_g2_affine,
    blst_fp12_to_bls_fq12, fq12_to_reference, fr_to_fast, g1_to_fast, g2_to_fast, lemma_g2_order,
};
use crate::error::Error;
use crate::fast::{g2_order, BlstFp12, BlstFr, BlstG1Affine, BlstG2Affine, BlstMillerValue};
use crate::fast_backend::{
    blst_final_exp, blst_final_exp_result, blst_fp12_mul, blst_fp12_mul_result, blst_g1_add,
    blst_g1_add_result, blst_g1_mult, blst_g1_mult_result, blst_miller_loop,
    blst_miller_loop_result,
};
use crate::negation::blst_g2_neg;
use crate::point::{
    g2_neg_value, lemma_fast_point_value_injective, lemma_reference_point_value_injective,
};
use crate::reference::{Fq12, Fr, G1Affine, G2Affine};
use crate::reference_backend::{
    ark_final_exponentiation, ark_final_exponentiation_result, ark_g1_add, ark_g1_add_result,
    ark_g1_mul, ark_g1_mul_result, ark_g2_neg, ark_miller_loop, ark_miller_loop_result,
    pairs_view,
};
use vstd::prelude::*;

verus! {

/// The public parameters of one circuit.
#[derive(Clone, Debug, PartialEq, Eq)]
pub struct VerifyingKey {
    /// `alpha`, in the first group.
    pub alpha_g1: G1Affine,
    /// `beta`, in the second group.
    pub beta_g2: G2Affine,
    /// `gamma`, in the second group.
    pub gamma_g2: G2Affine,
    /// `delta`, in the second group.
    pub delta_g2: G2Affine,
    /// One point of the first group for the constant term and one for each
    /// public input, in the order of the inputs.
    pub gamma_abc_g1: Vec<G1Affine>,
}

/// A verifying key as plain bytes.
pub struct VerifyingKeyView {
    pub alpha_g1: Seq<u8>,
    pub beta_g2: Seq<u8>,
    pub gamma_g2: Seq<u8>,
    pub delta_g2: Seq<u8>,
    pub gamma_abc_g1: Seq<Seq<u8>>,
}

impl View for VerifyingKey {
    type V = VerifyingKeyView;

    open spec fn view(&self) -> VerifyingKeyView {
        VerifyingKeyView {
            alpha_g1: self.alpha_g1@,
            beta_g2: self.beta_g2@,
            gamma_g2: self.gamma_g2@,
            delta_g2: self.delta_g2@,
            gamma_abc_g1: point_views(self.gamma_abc_g1@),
        }
    }
}

/// A proof: three points.
#[derive(Clone, Copy, Debug, PartialEq, Eq)]
pub struct Proof {
    /// `A`, in the first group.
    pub a: G1Affine,
    /// `B`, in the second group.
    pub b: G2Affine,
    /// `C`, in the first group.
    pub c: G1Affine,
}

/// A proof as plain bytes.
pub struct ProofView {
    pub a: Seq<u8>,
    pub b: Seq<u8>,
    pub c: Seq<u8>,
}

impl View for Proof {
    type V = ProofView;

    open spec fn view(&self) -> ProofView {
        ProofView { a: self.a@, b: self.b@, c: self.c@ }
    }
}

/// A verifying key with what every verification against it needs: the
/// pairing of `alpha` and `beta`, and the negatives of `gamma` and `delta`,
/// all three in the fast representation.
#[derive(Clone, Debug, PartialEq, Eq)]
pub struct PreparedVerifyingKey {
    /// The key that was processed.
    pub vk: VerifyingKey,
    /// The pairing of `alpha` and `beta`.
    pub alpha_g1_beta_g2: BlstFp12,
    /// The negative of `gamma`.
    pub gamma_g2_neg_pc: BlstG2Affine,
    /// The negative of `delta`.
    pub delta_g2_neg_pc: BlstG2Affine,
}

/// A processed verifying key as plain bytes.
pub struct PreparedVerifyingKeyView {
    pub vk: VerifyingKeyView,
    pub alpha_g1_beta_g2: Seq<u8>,
    pub gamma_g2_neg_pc: Seq<u8>,
    pub delta_g2_neg_pc: Seq<u8>,
}

impl View for PreparedVerifyingKey {
    type V = PreparedVerifyingKeyView;

    open spec fn view(&self) -> PreparedVerifyingKeyView {
        PreparedVerifyingKeyView {
            vk: self.vk@,
            alpha_g1_beta_g2: self.alpha_g1_beta_g2@,
            gamma_g2_neg_pc: self.gamma_g2_neg_pc@,
            delta_g2_neg_pc: self.delta_g2_neg_pc@,
        }
    }
}

/// A verifying key with what every verification against it needs, all in
/// the reference representation.
#[derive(Clone, Debug, PartialEq, Eq)]
pub struct ArkPreparedVerifyingKey {
    /// The key that was processed.
    pub vk: VerifyingKey,
    /// The pairing of `alpha` and `beta`.
    pub alpha_g1_beta_g2: Fq12,
    /// The negative of `gamma`.
    pub gamma_g2_neg_pc: G2Affine,
    /// The negative of `delta`.
    pub delta_g2_neg_pc: G2Affine,
}

/// A processed verifying key of the reference pipeline as plain bytes.
pub struct ArkPreparedVerifyingKeyView {
    pub vk: VerifyingKeyView,
    pub alpha_g1_beta_g2: Seq<u8>,
    pub gamma_g2_neg_pc: Seq<u8>,
    pub delta_g2_neg_pc: Seq<u8>,
}

impl View for ArkPreparedVerifyingKey {
    type V = ArkPreparedVerifyingKeyView;

    open spec fn view(&self) -> ArkPreparedVerifyingKeyView {
        ArkPreparedVerifyingKeyView {
            vk: self.vk@,
            alpha_g1_beta_g2: self.alpha_g1_beta_g2@,
            gamma_g2_neg_pc: self.gamma_g2_neg_pc@,
            delta_g2_neg_pc: self.delta_g2_neg_pc@,
        }
    }
}

/// The points as bytes.
pub open spec fn point_views(points: Seq<G1Affine>) -> Seq<Seq<u8>> {
    points.map_values(|p: G1Affine| p@)
}

/// The scalars as limbs.
pub open spec fn scalar_views(scalars: Seq<Fr>) -> Seq<Seq<u64>> {
    scalars.map_values(|s: Fr| s@)
}

/// The fast scalars as bytes.
pub open spec fn fast_scalar_views(scalars: Seq<BlstFr>) -> Seq<Seq<u8>> {
    scalars.map_values(|s: BlstFr| s@)
}

/// The fast points as bytes.
pub open spec fn fast_point_views(points: Seq<BlstG1Affine>) -> Seq<Seq<u8>> {
    points.map_values(|p: BlstG1Affine| p@)
}

/// The pairs of fast points as bytes.
pub open spec fn fast_pair_views(pairs: Seq<(BlstG2Affine, BlstG1Affine)>) -> Seq<
    (Seq<u8>, Seq<u8>),
> {
    pairs.map_values(|pair: (BlstG2Affine, BlstG1Affine)| (pair.0@, pair.1@))
}

/// The first base plus the first `k` scalars times the bases that follow
/// it, each scalar with the base one place further on, added in that order:
/// `bases[0] + scalars[0] * bases[1] + ... + scalars[k - 1] * bases[k]`.
/// Nothing where the backend refuses a point on the way.
pub open spec fn linear_combination(bases: Seq<Seq<u8>>, scalars: Seq<Seq<u8>>, k: nat) -> Option<
    Seq<u8>,
>
    decreases k,
{
    if k == 0 {
        Some(bases[0])
    } else {
        match linear_combination(bases, scalars, (k - 1) as nat) {
            None => None,
            Some(sum) => match blst_g1_mult_result(bases[k as int], scalars[k - 1]) {
                None => None,
                Some(term) => blst_g1_add_result(sum, term),
            },
        }
    }
}

/// What [`g1_linear_combination`] returns.
pub open spec fn g1_linear_combination_spec(bases: Seq<Seq<u8>>, scalars: Seq<Seq<u8>>) -> Result<
    Seq<u8>,
    Error,
> {
    if bases.len() != scalars.len() + 1 {
        Err(Error::Shape)
    } else {
        match linear_combination(bases, scalars, scalars.len()) {
            Some(sum) => Ok(sum),
            None => Err(Error::Conversion),
        }
    }
}

/// The product of the Miller loops of the first `k` pairs, multiplied in
/// their order, for `k` at least one. Nothing where the backend refuses a
/// point on the way.
pub open spec fn miller_loop_product(pairs: Seq<(Seq<u8>, Seq<u8>)>, k: nat) -> Option<Seq<u64>>
    decreases k,
{
    if k <= 1 {
        blst_miller_loop_result(pairs[0].0, pairs[0].1)
    } else {
        match miller_loop_product(pairs, (k - 1) as nat) {
            None => None,
            Some(product) => match blst_miller_loop_result(pairs[k - 1].0, pairs[k - 1].1) {
                None => None,
                Some(value) => Some(blst_fp12_mul_result(product, value)),
            },
        }
    }
}

/// What [`blst_miller_loop_product`] returns.
pub open spec fn blst_miller_loop_product_spec(pairs: Seq<(Seq<u8>, Seq<u8>)>) -> Result<
    Seq<u64>,
    Error,
> {
    if pairs.len() == 0 {
        Err(Error::Shape)
    } else {
        match miller_loop_product(pairs, pairs.len()) {
            Some(product) => Ok(product),
            None => Err(Error::Conversion),
        }
    }
}

/// The three pairs of a verification: the proof's `B` with its `A`, the
/// negative of `gamma` with the combined inputs, and the negative of
/// `delta` with the proof's `C`.
pub open spec fn verification_pairs(
    pvk: PreparedVerifyingKeyView,
    combined: Seq<u8>,
    proof: ProofView,
) -> Seq<(Seq<u8>, Seq<u8>)> {
    seq![
        (g2_to_fast(proof.b), g1_to_fast(proof.a)),
        (pvk.gamma_g2_neg_pc, combined),
        (pvk.delta_g2_neg_pc, g1_to_fast(proof.c)),
    ]
}

/// What [`multipairing_with_processed_vk`] returns.
pub open spec fn multipairing_spec(
    pvk: PreparedVerifyingKeyView,
    x: Seq<Seq<u64>>,
    proof: ProofView,
) -> Result<Seq<u8>, Error> {
    if x.len() + 1 != pvk.vk.gamma_abc_g1.len() {
        Err(Error::Shape)
    } else {
        let bases = pvk.vk.gamma_abc_g1.map_values(|b: Seq<u8>| g1_to_fast(b));
        let scalars = x.map_values(|s: Seq<u64>| fr_to_fast(s));
        match linear_combination(bases, scalars, scalars.len()) {
            None => Err(Error::Conversion),
            Some(combined) => match miller_loop_product(
                verification_pairs(pvk, combined, proof),
                3,
            ) {
                None => Err(Error::Conversion),
                Some(product) => Ok(blst_final_exp_result(product)),
            },
        }
    }
}

/// What [`verify_with_processed_vk`] returns.
pub open spec fn verify_spec(
    pvk: PreparedVerifyingKeyView,
    x: Seq<Seq<u64>>,
    proof: ProofView,
) -> Result<bool, Error> {
    match multipairing_spec(pvk, x, proof) {
        Ok(value) => Ok(value == pvk.alpha_g1_beta_g2),
        Err(e) => Err(e),
    }
}

/// Whether `pvk` is what processing `vk` gives: the key itself, the final
/// exponentiation of the Miller loop of `beta` and `alpha`, and the
/// negatives of `gamma` and `delta`.
pub open spec fn is_processed(vk: VerifyingKey, pvk: PreparedVerifyingKey) -> bool {
    &&& pvk.vk@ == vk@
    &&& blst_miller_loop_result(g2_to_fast(vk.beta_g2@), g1_to_fast(vk.alpha_g1@)) matches Some(
        value,
    ) && pvk.alpha_g1_beta_g2@ == blst_final_exp_result(value)
    &&& pvk.gamma_g2_neg_pc.value() == g2_neg_value(vk.gamma_g2.value())
    &&& pvk.delta_g2_neg_pc.value() == g2_neg_value(vk.delta_g2.value())
}

/// A copy of a verifying key.
fn copy_verifying_key(vk: &VerifyingKey) -> (r: VerifyingKey)
    ensures
        r@ == vk@,
{
    let mut gamma_abc_g1: Vec<G1Affine> = Vec::new();
    let n: usize = vk.gamma_abc_g1.len();
    let mut i: usize = 0;
    while i < n
        invariant
            i <= n,
            n == vk.gamma_abc_g1@.len(),
            gamma_abc_g1@.len() == i,
            forall|j: int| 0 <= j < i ==> gamma_abc_g1@[j] == vk.gamma_abc_g1@[j],
        decreases n - i,
    {
        gamma_abc_g1.push(vk.gamma_abc_g1[i]);
        i = i + 1;
    }
    let r = VerifyingKey {
        alpha_g1: vk.alpha_g1,
        beta_g2: vk.beta_g2,
        gamma_g2: vk.gamma_g2,
        delta_g2: vk.delta_g2,
        gamma_abc_g1,
    };
    proof {
        assert(r.gamma_abc_g1@ =~= vk.gamma_abc_g1@);
    }
    r
}

/// Processes a verifying key for the fast pipeline.
///
/// Fails only where the backend refuses `alpha` or `beta` as a point of the
/// curve.
pub fn process_vk_special(vk: &VerifyingKey) -> (r: Result<PreparedVerifyingKey, Error>)
    ensures
        match r {
            Ok(pvk) => is_processed(*vk, pvk),
            Err(e) => e == Error::Conversion && blst_miller_loop_result(
                g2_to_fast(vk.beta_g2@),
                g1_to_fast(vk.alpha_g1@),
            ).is_none(),
        },
{
    let g1_alpha = bls_g1_affine_to_blst_g1_affine(&vk.alpha_g1);
    let g2_beta = bls_g2_affine_to_blst_g2_affine(&vk.beta_g2);
    match blst_miller_loop(&g2_beta, &g1_alpha) {
        None => Err(Error::Conversion),
        Some(value) => {
            let alpha_g1_beta_g2 = blst_final_exp(&value);
            let g2_gamma = bls_g2_affine_to_blst_g2_affine(&vk.gamma_g2);
            let g2_delta = bls_g2_affine_to_blst_g2_affine(&vk.delta_g2);
            Ok(
                PreparedVerifyingKey {
                    vk: copy_verifying_key(vk),
                    alpha_g1_beta_g2,
                    gamma_g2_neg_pc: blst_g2_neg(&g2_gamma),
                    delta_g2_neg_pc: blst_g2_neg(&g2_delta),
                },
            )
        },
    }
}

/// Combines scalars with base points: the first base, plus each scalar
/// times the base one place further on, in the order of the scalars.
///
/// There has to be one base more than there are scalars. With no scalar the
/// first base comes back as it is.
pub fn g1_linear_combination(bases: &Vec<BlstG1Affine>, scalars: &Vec<BlstFr>) -> (r: Result<
    BlstG1Affine,
    Error,
>)
    ensures
        match g1_linear_combination_spec(fast_point_views(bases@), fast_scalar_views(scalars@)) {
            Ok(sum) => r is Ok && r->Ok_0@ == sum,
            Err(e) => r == Err::<BlstG1Affine, Error>(e),
        },
{
    let n: usize = scalars.len();
    if bases.len() == 0 || bases.len() - 1 != n {
        return Err(Error::Shape);
    }
    let ghost points = fast_point_views(bases@);
    let ghost weights = fast_scalar_views(scalars@);
    let mut sum: BlstG1Affine = bases[0];
    let mut i: usize = 0;
    while i < n
        invariant
            i <= n,
            n == scalars@.len(),
            bases@.len() == n + 1,
            points == fast_point_views(bases@),
            weights == fast_scalar_views(scalars@),
            linear_combination(points, weights, i as nat) == Some(sum@),
        decreases n - i,
    {
        proof {
            lemma_linear_combination_stays_nothing(points, weights, (i + 1) as nat, n as nat);
        }
        let term = match blst_g1_mult(&bases[i + 1], &scalars[i]) {
            Some(term) => term,
            None => {
                return Err(Error::Conversion);
            },
        };
        sum =
        match blst_g1_add(&sum, &term) {
            Some(sum) => sum,
            None => {
                return Err(Error::Conversion);
            },
        };
        i = i + 1;
    }
    Ok(sum)
}

/// Once a step of the combination fails, every longer combination fails.
pub proof fn lemma_linear_combination_stays_nothing(
    bases: Seq<Seq<u8>>,
    scalars: Seq<Seq<u8>>,
    k: nat,
    n: nat,
)
    requires
        k <= n,
    ensures
        linear_combination(bases, scalars, k).is_none() ==> linear_combination(
            bases,
            scalars,
            n,
        ).is_none(),
    decreases n,
{
    if k < n {
        lemma_linear_combination_stays_nothing(bases, scalars, k, (n - 1) as nat);
    }
}

/// Once a step of the product fails, every longer product fails.
pub proof fn lemma_miller_loop_product_stays_nothing(
    pairs: Seq<(Seq<u8>, Seq<u8>)>,
    k: nat,
    n: nat,
)
    requires
        1 <= k <= n,
    ensures
        miller_loop_product(pairs, k).is_none() ==> miller_loop_product(pairs, n).is_none(),
    decreases n,
{
    if k < n {
        lemma_miller_loop_product_stays_nothing(pairs, k, (n - 1) as nat);
    }
}

/// Runs one Miller loop for each pair, a point of the second group with a
/// point of the first, and multiplies what the loops leave behind, in the
/// order of the pairs.
///
/// There has to be at least one pair.
pub fn blst_miller_loop_product(pairs: &Vec<(BlstG2Affine, BlstG1Affine)>) -> (r: Result<
    BlstMillerValue,
    Error,
>)
    ensures
        match blst_miller_loop_product_spec(fast_pair_views(pairs@)) {
            Ok(product) => r is Ok && r->Ok_0@ == product,
            Err(e) => r == Err::<BlstMillerValue, Error>(e),
        },
{
    let n: usize = pairs.len();
    if n == 0 {
        return Err(Error::Shape);
    }
    let ghost views = fast_pair_views(pairs@);
    proof {
        lemma_miller_loop_product_stays_nothing(views, 1, n as nat);
    }
    let mut product = match blst_miller_loop(&pairs[0].0, &pairs[0].1) {
        Some(value) => value,
        None => {
            return Err(Error::Conversion);
        },
    };
    let mut i: usize = 1;
    while i < n
        invariant
            1 <= i <= n,
            n == pairs@.len(),
            views == fast_pair_views(pairs@),
            miller_loop_product(views, i as nat) == Some(product@),
        decreases n - i,
    {
        proof {
            lemma_miller_loop_product_stays_nothing(views, (i + 1) as nat, n as nat);
        }
        let value = match blst_miller_loop(&pairs[i].0, &pairs[i].1) {
            Some(value) => value,
            None => {
                return Err(Error::Conversion);
            },
        };
        product = blst_fp12_mul(&product, &value);
        i = i + 1;
    }
    Ok(product)
}

/// The points of a key's `gamma_abc` in the fast representation.
fn fast_bases(points: &Vec<G1Affine>) -> (r: Vec<BlstG1Affine>)
    ensures
        fast_point_views(r@) == point_views(points@).map_values(|b: Seq<u8>| g1_to_fast(b)),
{
    let mut out: Vec<BlstG1Affine> = Vec::new();
    let n: usize = points.len();
    let mut i: usize = 0;
    while i < n
        invariant
            i <= n,
            n == points@.len(),
            out@.len() == i,
            forall|j: int| 0 <= j < i ==> out@[j]@ == g1_to_fast(points@[j]@),
        decreases n - i,
    {
        out.push(bls_g1_affine_to_blst_g1_affine(&points[i]));
        i = i + 1;
    }
    proof {
        assert(fast_point_views(out@) =~= point_views(points@).map_values(
            |b: Seq<u8>| g1_to_fast(b),
        ));
    }
    out
}

/// The public inputs in the fast representation.
fn fast_scalars(scalars: &Vec<Fr>) -> (r: Vec<BlstFr>)
    ensures
        fast_scalar_views(r@) == scalar_views(scalars@).map_values(|s: Seq<u64>| fr_to_fast(s)),
{
    let mut out: Vec<BlstFr> = Vec::new();
    let n: usize = scalars.len();
    let mut i: usize = 0;
    while i < n
        invariant
            i <= n,
            n == scalars@.len(),
            out@.len() == i,
            forall|j: int| 0 <= j < i ==> out@[j]@ == fr_to_fast(scalars@[j]@),
        decreases n - i,
    {
        out.push(bls_fr_to_blst_fr(&scalars[i]));
        i = i + 1;
    }
    proof {
        assert(fast_scalar_views(out@) =~= scalar_views(scalars@).map_values(
            |s: Seq<u64>| fr_to_fast(s),
        ));
    }
    out
}

/// The value that a proof and its public inputs give under a processed key:
/// the final exponentiation of the product of the three Miller loops.
///
/// Fails with [`Error::Shape`] where the number of public inputs is not one
/// less than the number of the key's `gamma_abc` points, and with
/// [`Error::Conversion`] where the backend refuses a point.
pub fn multipairing_with_processed_vk(
    pvk: &PreparedVerifyingKey,
    x: &Vec<Fr>,
    proof: &Proof,
) -> (r: Result<BlstFp12, Error>)
    ensures
        match multipairing_spec(pvk@, scalar_views(x@), proof@) {
            Ok(value) => r is Ok && r->Ok_0@ == value,
            Err(e) => r == Err::<BlstFp12, Error>(e),
        },
{
    if pvk.vk.gamma_abc_g1.len() == 0 || x.len() != pvk.vk.gamma_abc_g1.len() - 1 {
        return Err(Error::Shape);
    }
    let pts = fast_bases(&pvk.vk.gamma_abc_g1);
    let ss = fast_scalars(x);
    let combined = match g1_linear_combination(&pts, &ss) {
        Ok(combined) => combined,
        Err(e) => {
            return Err(e);
        },
    };
    let mut pairs: Vec<(BlstG2Affine, BlstG1Affine)> = Vec::new();
    pairs.push(
        (bls_g2_affine_to_blst_g2_affine(&proof.b), bls_g1_affine_to_blst_g1_affine(&proof.a)),
    );
    pairs.push((pvk.gamma_g2_neg_pc, combined));
    pairs.push((pvk.delta_g2_neg_pc, bls_g1_affine_to_blst_g1_affine(&proof.c)));
    proof {
        assert(fast_pair_views(pairs@) =~= verification_pairs(pvk@, combined@, proof@));
    }
    match blst_miller_loop_product(&pairs) {
        Ok(product) => Ok(blst_final_exp(&product)),
        Err(e) => Err(e),
    }
}

/// Whether a proof is valid for the public inputs under a processed key:
/// whether its multi-pairing value is the key's pairing of `alpha` and
/// `beta`.
///
/// Fails where [`multipairing_with_processed_vk`] fails; a proof that is
/// merely wrong gives `Ok(false)`.
pub fn verify_with_processed_vk(pvk: &PreparedVerifyingKey, x: &Vec<Fr>, proof: &Proof) -> (r:
    Result<bool, Error>)
    ensures
        r == verify_spec(pvk@, scalar_views(x@), proof@),
        x@.len() + 1 != pvk.vk.gamma_abc_g1@.len() <==> r == Err::<bool, Error>(Error::Shape),
{
    match multipairing_with_processed_vk(pvk, x, proof) {
        Ok(value) => Ok(value.equals(&pvk.alpha_g1_beta_g2)),
        Err(e) => Err(e),
    }
}

/// Processing a key has one outcome: two processed keys that come from
/// equal keys are equal, field for field.
pub proof fn lemma_processing_is_deterministic(
    vk1: VerifyingKey,
    vk2: VerifyingKey,
    pvk1: PreparedVerifyingKey,
    pvk2: PreparedVerifyingKey,
)
    requires
        vk1@ == vk2@,
        is_processed(vk1, pvk1),
        is_processed(vk2, pvk2),
        pvk1.gamma_g2_neg_pc.wf(),
        pvk1.delta_g2_neg_pc.wf(),
        pvk2.gamma_g2_neg_pc.wf(),
        pvk2.delta_g2_neg_pc.wf(),
    ensures
        pvk1@ == pvk2@,
{
    lemma_g2_order();
    lemma_fast_point_value_injective(
        pvk1.gamma_g2_neg_pc@,
        pvk2.gamma_g2_neg_pc@,
        g2_order(),
        g2_order(),
    );
    lemma_fast_point_value_injective(
        pvk1.delta_g2_neg_pc@,
        pvk2.delta_g2_neg_pc@,
        g2_order(),
        g2_order(),
    );
}

/// The first base plus the first `k` scalars times the bases that follow
/// it, as the reference backend computes it:
/// `bases[0] + scalars[0] * bases[1] + ... + scalars[k - 1] * bases[k]`.
pub open spec fn ark_linear_combination(bases: Seq<Seq<u8>>, scalars: Seq<Seq<u64>>, k: nat) -> Seq<
    u8,
>
    decreases k,
{
    if k == 0 {
        bases[0]
    } else {
        ark_g1_add_result(
            ark_linear_combination(bases, scalars, (k - 1) as nat),
            ark_g1_mul_result(bases[k as int], scalars[k - 1]),
        )
    }
}

/// What [`ark_g1_linear_combination`] returns.
pub open spec fn ark_g1_linear_combination_spec(
    bases: Seq<Seq<u8>>,
    scalars: Seq<Seq<u64>>,
) -> Result<Seq<u8>, Error> {
    if bases.len() != scalars.len() + 1 {
        Err(Error::Shape)
    } else {
        Ok(ark_linear_combination(bases, scalars, scalars.len()))
    }
}

/// What [`ark_multipairing_with_prepared_vk`] returns.
pub open spec fn ark_multipairing_spec(
    pvk: ArkPreparedVerifyingKeyView,
    proof: ProofView,
    public_inputs: Seq<Seq<u64>>,
) -> Result<Seq<u8>, Error> {
    if public_inputs.len() + 1 != pvk.vk.gamma_abc_g1.len() {
        Err(Error::Shape)
    } else {
        let g_ic = ark_linear_combination(
            pvk.vk.gamma_abc_g1,
            public_inputs,
            public_inputs.len(),
        );
        let qap = ark_miller_loop_result(
            seq![
                (proof.a, proof.b),
                (g_ic, pvk.gamma_g2_neg_pc),
                (proof.c, pvk.delta_g2_neg_pc),
            ],
        );
        match ark_final_exponentiation_result(qap) {
            Some(value) => Ok(value),
            None => Err(Error::Conversion),
        }
    }
}

/// Whether `pvk` is what processing `vk` for the reference pipeline gives:
/// the key itself, the pairing of `alpha` and `beta` as the fast backend
/// computes it, brought back to the reference representation, and the
/// negatives of `gamma` and `delta`.
pub open spec fn is_ark_processed(vk: VerifyingKey, pvk: ArkPreparedVerifyingKey) -> bool {
    &&& pvk.vk@ == vk@
    &&& blst_miller_loop_result(g2_to_fast(vk.beta_g2@), g1_to_fast(vk.alpha_g1@)) matches Some(
        value,
    ) && pvk.alpha_g1_beta_g2@ == fq12_to_reference(blst_final_exp_result(value))
    &&& pvk.gamma_g2_neg_pc.value() == g2_neg_value(vk.gamma_g2.value())
    &&& pvk.delta_g2_neg_pc.value() == g2_neg_value(vk.delta_g2.value())
}

/// Processes a verifying key for the reference pipeline, with the pairing
/// of `alpha` and `beta` taken from the fast backend.
///
/// Fails only where the fast backend refuses `alpha` or `beta` as a point of
/// the curve.
pub fn ark_process_vk(vk: &VerifyingKey) -> (r: Result<ArkPreparedVerifyingKey, Error>)
    ensures
        match r {
            Ok(pvk) => is_ark_processed(*vk, pvk),
            Err(e) => e == Error::Conversion && blst_miller_loop_result(
                g2_to_fast(vk.beta_g2@),
                g1_to_fast(vk.alpha_g1@),
            ).is_none(),
        },
{
    let g1_alpha = bls_g1_affine_to_blst_g1_affine(&vk.alpha_g1);
    let g2_beta = bls_g2_affine_to_blst_g2_affine(&vk.beta_g2);
    match blst_miller_loop(&g2_beta, &g1_alpha) {
        None => Err(Error::Conversion),
        Some(value) => {
            let blst_alpha_g1_beta_g2 = blst_final_exp(&value);
            proof {
                use_type_invariant(&vk.gamma_g2);
                use_type_invariant(&vk.delta_g2);
            }
            Ok(
                ArkPreparedVerifyingKey {
                    vk: copy_verifying_key(vk),
                    alpha_g1_beta_g2: blst_fp12_to_bls_fq12(&blst_alpha_g1_beta_g2),
                    gamma_g2_neg_pc: ark_g2_neg(&vk.gamma_g2),
                    delta_g2_neg_pc: ark_g2_neg(&vk.delta_g2),
                },
            )
        },
    }
}

/// Processing a key for the reference pipeline has one outcome.
pub proof fn lemma_ark_processing_is_deterministic(
    vk1: VerifyingKey,
    vk2: VerifyingKey,
    pvk1: ArkPreparedVerifyingKey,
    pvk2: ArkPreparedVerifyingKey,
)
    requires
        vk1@ == vk2@,
        is_ark_processed(vk1, pvk1),
        is_ark_processed(vk2, pvk2),
        pvk1.gamma_g2_neg_pc.wf(),
        pvk1.delta_g2_neg_pc.wf(),
        pvk2.gamma_g2_neg_pc.wf(),
        pvk2.delta_g2_neg_pc.wf(),
    ensures
        pvk1@ == pvk2@,
{
    lemma_reference_point_value_injective(pvk1.gamma_g2_neg_pc@, pvk2.gamma_g2_neg_pc@, 4);
    lemma_reference_point_value_injective(pvk1.delta_g2_neg_pc@, pvk2.delta_g2_neg_pc@, 4);
}

/// Combines scalars with base points in the reference backend: the first
/// base, plus each scalar times the base one place further on, in the order
/// of the scalars.
///
/// There has to be one base more than there are scalars.
pub fn ark_g1_linear_combination(bases: &Vec<G1Affine>, scalars: &Vec<Fr>) -> (r: Result<
    G1Affine,
    Error,
>)
    ensures
        match ark_g1_linear_combination_spec(point_views(bases@), scalar_views(scalars@)) {
            Ok(sum) => r is Ok && r->Ok_0@ == sum,
            Err(e) => r == Err::<G1Affine, Error>(e),
        },
{
    let n: usize = scalars.len();
    if bases.len() == 0 || bases.len() - 1 != n {
        return Err(Error::Shape);
    }
    let ghost points = point_views(bases@);
    let ghost weights = scalar_views(scalars@);
    let mut g_ic: G1Affine = bases[0];
    let mut i: usize = 0;
    while i < n
        invariant
            i <= n,
            n == scalars@.len(),
            bases@.len() == n + 1,
            points == point_views(bases@),
            weights == scalar_views(scalars@),
            g_ic@ == ark_linear_combination(points, weights, i as nat),
        decreases n - i,
    {
        let base: &G1Affine = &bases[i + 1];
        proof {
            use_type_invariant(base);
            use_type_invariant(&g_ic);
        }
        let term = ark_g1_mul(base, &scalars[i]);
        g_ic = ark_g1_add(&g_ic, &term);
        i = i + 1;
    }
    Ok(g_ic)
}

/// The value that a proof and its public inputs give under a key processed
/// for the reference pipeline: the final exponentiation of one Miller loop
/// over the three pairs.
///
/// Fails with [`Error::Shape`] where the number of public inputs is not one
/// less than the number of the key's `gamma_abc` points, and with
/// [`Error::Conversion`] where the Miller loop leaves zero behind, which has
/// no final exponentiation and which no three pairs of points of the groups
/// give.
pub fn ark_multipairing_with_prepared_vk(
    pvk: &ArkPreparedVerifyingKey,
    proof: &Proof,
    public_inputs: &Vec<Fr>,
) -> (r: Result<Fq12, Error>)
    ensures
        match ark_multipairing_spec(pvk@, proof@, scalar_views(public_inputs@)) {
            Ok(value) => r is Ok && r->Ok_0@ == value,
            Err(e) => r == Err::<Fq12, Error>(e),
        },
{
    let g_ic = match ark_g1_linear_combination(&pvk.vk.gamma_abc_g1, public_inputs) {
        Ok(g_ic) => g_ic,
        Err(e) => {
            return Err(e);
        },
    };
    proof {
        use_type_invariant(&proof.a);
        use_type_invariant(&proof.b);
        use_type_invariant(&proof.c);
        use_type_invariant(&g_ic);
        use_type_invariant(&pvk.gamma_g2_neg_pc);
        use_type_invariant(&pvk.delta_g2_neg_pc);
    }
    let mut pairs: Vec<(G1Affine, G2Affine)> = Vec::new();
    pairs.push((proof.a, proof.b));
    pairs.push((g_ic, pvk.gamma_g2_neg_pc));
    pairs.push((proof.c, pvk.delta_g2_neg_pc));
    proof {
        assert(pairs_view(pairs@) =~= seq![
            (proof@.a, proof@.b),
            (g_ic@, pvk@.gamma_g2_neg_pc),
            (proof@.c, pvk@.delta_g2_neg_pc),
        ]);
    }
    let qap = ark_miller_loop(&pairs);
    match ark_final_exponentiation(&qap) {
        Some(value) => Ok(value),
        None => Err(Error::Conversion),
    }
}

} // verus!
