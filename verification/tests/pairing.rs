use ark_bls12_381::{Bls12_381, Fq12, Fr, G1Affine, G1Projective, G2Affine, G2Projective};
use ark_ec::{AffineCurve, PairingEngine, ProjectiveCurve};
use ark_ff::{PrimeField, UniformRand};
use ark_serialize::CanonicalSerialize;
use proptest::arbitrary::any;
use proptest::collection;
use proptest::strategy::Strategy;
use proptest::test_runner::{TestCaseError, TestRunner};

use fastcrypto_zkp::conversions::{
    bls_g1_affine_to_blst_g1_affine, bls_g2_affine_to_blst_g2_affine, blst_fp12_to_bls_fq12,
};
use fastcrypto_zkp::error::Error;
use fastcrypto_zkp::fast::{BlstG1Affine, BlstG2Affine};
use fastcrypto_zkp::reference;
use fastcrypto_zkp::verification::{
    blst_miller_loop_product, process_vk_special, VerifyingKey,
};

const LEN: usize = 10;

fn g1(p: &G1Affine) -> reference::G1Affine {
    let mut bytes = [0u8; 96];
    p.serialize_uncompressed(&mut bytes[..]).unwrap();
    reference::G1Affine::from_bytes(bytes).unwrap()
}

fn g2(p: &G2Affine) -> reference::G2Affine {
    let mut bytes = [0u8; 192];
    p.serialize_uncompressed(&mut bytes[..]).unwrap();
    reference::G2Affine::from_bytes(bytes).unwrap()
}

fn fq12(f: &Fq12) -> reference::Fq12 {
    let mut bytes = [0u8; 576];
    f.serialize(&mut bytes[..]).unwrap();
    reference::Fq12::from_bytes(bytes).unwrap()
}

fn limbs(f: &blst::blst_fp12) -> [[[[u64; 6]; 2]; 3]; 2] {
    f.fp6.map(|a| a.fp2.map(|b| b.fp.map(|c| c.l)))
}

fn random_pairs(n: usize) -> Vec<(BlstG2Affine, BlstG1Affine)> {
    let rng = &mut ark_std::test_rng();
    (0..n)
        .map(|_| {
            (
                bls_g2_affine_to_blst_g2_affine(&g2(&G2Projective::rand(rng).into_affine())),
                bls_g1_affine_to_blst_g1_affine(&g1(&G1Projective::rand(rng).into_affine())),
            )
        })
        .collect()
}

fn engine(pairs: &[(BlstG2Affine, BlstG1Affine)]) -> blst::blst_fp12 {
    let dst = [0u8; 3];
    let mut pairing_blst = blst::Pairing::new(false, &dst);
    for (b, a) in pairs.iter() {
        let q: blst::blst_p2_affine = blst::min_sig::PublicKey::deserialize(&b.to_bytes())
            .unwrap()
            .into();
        let p: blst::blst_p1_affine = blst::min_pk::PublicKey::deserialize(&a.to_bytes())
            .unwrap()
            .into();
        pairing_blst.raw_aggregate(&q, &p);
    }
    pairing_blst.as_fp12() // this implies pairing_blst.commit()
}

fn arb_blst_g1_affine() -> impl Strategy<Value = BlstG1Affine> {
    any::<u64>().prop_map(|seed| {
        let scalar = Fr::from(seed) + Fr::from(1u64);
        let point = G1Affine::prime_subgroup_generator().mul(scalar.into_repr());
        bls_g1_affine_to_blst_g1_affine(&g1(&point.into_affine()))
    })
}

fn arb_blst_g2_affine() -> impl Strategy<Value = BlstG2Affine> {
    any::<u64>().prop_map(|seed| {
        let scalar = Fr::from(seed) + Fr::from(1u64);
        let point = G2Affine::prime_subgroup_generator().mul(scalar.into_repr());
        bls_g2_affine_to_blst_g2_affine(&g2(&point.into_affine()))
    })
}

// This technical test is necessary because blst does not expose
// the miller_loop_n operation, and forces us to abuse the signature-oriented pairing engine
// that it does expose. Here we show the use of the pairing engine is equivalent to iterated
// use of one-off pairings.
#[test]
fn test_blst_miller_loops() {
    let strategy = (
        collection::vec(arb_blst_g1_affine(), LEN..=LEN),
        collection::vec(arb_blst_g2_affine(), LEN..=LEN),
    );
    let outcome = TestRunner::default().run(&strategy, |(a_s, b_s)| {
        let pairs: Vec<(BlstG2Affine, BlstG1Affine)> =
            b_s.iter().copied().zip(a_s.iter().copied()).collect();
        let pairing_engine_result = engine(&pairs);
        let res = blst_miller_loop_product(&pairs).unwrap();
        if res.limbs() == limbs(&pairing_engine_result) {
            Ok(())
        } else {
            Err(TestCaseError::fail("the engine and the product differ"))
        }
    });
    assert!(outcome.is_ok());
}

#[test]
fn product_of_ten_pairs_is_what_the_engine_gives() {
    let pairs = random_pairs(LEN);
    let pairing_engine_result = engine(&pairs);
    let res = blst_miller_loop_product(&pairs).unwrap();
    assert_eq!(res.limbs(), limbs(&pairing_engine_result));
}

#[test]
fn product_of_one_pair_is_its_miller_loop() {
    let pairs = random_pairs(1);
    let q: blst::blst_p2_affine = blst::min_sig::PublicKey::deserialize(&pairs[0].0.to_bytes())
        .unwrap()
        .into();
    let p: blst::blst_p1_affine = blst::min_pk::PublicKey::deserialize(&pairs[0].1.to_bytes())
        .unwrap()
        .into();
    let expected = blst::blst_fp12::miller_loop(&q, &p);
    assert_eq!(blst_miller_loop_product(&pairs).unwrap().limbs(), limbs(&expected));
}

#[test]
fn product_of_three_pairs_is_the_product_of_their_miller_loops() {
    let pairs = random_pairs(3);
    let mut expected = blst::blst_fp12::default();
    for (b, a) in pairs.iter() {
        let q: blst::blst_p2_affine = blst::min_sig::PublicKey::deserialize(&b.to_bytes())
            .unwrap()
            .into();
        let p: blst::blst_p1_affine = blst::min_pk::PublicKey::deserialize(&a.to_bytes())
            .unwrap()
            .into();
        expected *= blst::blst_fp12::miller_loop(&q, &p);
    }
    let product = blst_miller_loop_product(&pairs).unwrap();
    assert_eq!(product.limbs(), limbs(&expected));
    assert_eq!(product.limbs(), limbs(&engine(&pairs)));
    assert_ne!(
        product.limbs(),
        blst_miller_loop_product(&pairs[..2].to_vec()).unwrap().limbs()
    );
}

#[test]
fn product_of_no_pairs_is_a_shape_error() {
    assert_eq!(blst_miller_loop_product(&vec![]), Err(Error::Shape));
}

#[test]
fn pair_with_a_point_off_the_curve_is_a_conversion_error() {
    let mut pairs = random_pairs(2);
    let mut bytes = [0u8; 96];
    bytes[47] = 1;
    bytes[95] = 1;
    pairs[1].1 = BlstG1Affine::from_bytes(bytes).unwrap();
    assert_eq!(blst_miller_loop_product(&pairs), Err(Error::Conversion));
    pairs.swap(0, 1);
    assert_eq!(blst_miller_loop_product(&pairs), Err(Error::Conversion));
}

#[test]
fn fast_pairing_of_alpha_and_beta_is_the_reference_pairing() {
    let rng = &mut ark_std::test_rng();
    for _ in 0..5 {
        let alpha = G1Projective::rand(rng).into_affine();
        let beta = G2Projective::rand(rng).into_affine();
        let other = G2Projective::rand(rng).into_affine();
        let vk = VerifyingKey {
            alpha_g1: g1(&alpha),
            beta_g2: g2(&beta),
            gamma_g2: g2(&other),
            delta_g2: g2(&other),
            gamma_abc_g1: vec![g1(&alpha)],
        };
        let pvk = process_vk_special(&vk).unwrap();
        assert_eq!(
            blst_fp12_to_bls_fq12(&pvk.alpha_g1_beta_g2),
            fq12(&Bls12_381::pairing(alpha, beta))
        );
    }
}

#[test]
fn processing_negates_gamma_and_delta() {
    let rng = &mut ark_std::test_rng();
    let alpha = G1Projective::rand(rng).into_affine();
    let beta = G2Projective::rand(rng).into_affine();
    let gamma = G2Projective::rand(rng).into_affine();
    let delta = G2Projective::rand(rng).into_affine();
    let vk = VerifyingKey {
        alpha_g1: g1(&alpha),
        beta_g2: g2(&beta),
        gamma_g2: g2(&gamma),
        delta_g2: g2(&delta),
        gamma_abc_g1: vec![g1(&alpha)],
    };
    let pvk = process_vk_special(&vk).unwrap();
    assert_eq!(pvk.gamma_g2_neg_pc, bls_g2_affine_to_blst_g2_affine(&g2(&(-gamma))));
    assert_eq!(pvk.delta_g2_neg_pc, bls_g2_affine_to_blst_g2_affine(&g2(&(-delta))));
    assert_ne!(pvk.gamma_g2_neg_pc, bls_g2_affine_to_blst_g2_affine(&g2(&gamma)));
}

#[test]
fn key_with_alpha_off_the_curve_is_not_processed() {
    let rng = &mut ark_std::test_rng();
    let beta = G2Projective::rand(rng).into_affine();
    let mut bytes = [0u8; 96];
    bytes[0] = 1;
    bytes[48] = 1;
    let off_curve = reference::G1Affine::from_bytes(bytes).unwrap();
    let vk = VerifyingKey {
        alpha_g1: off_curve,
        beta_g2: g2(&beta),
        gamma_g2: g2(&beta),
        delta_g2: g2(&beta),
        gamma_abc_g1: vec![off_curve],
    };
    assert_eq!(process_vk_special(&vk), Err(Error::Conversion));
}
