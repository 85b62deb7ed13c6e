use ark_bls12_381::{G2Affine, G2Projective};
use ark_ec::ProjectiveCurve;
use ark_ff::{UniformRand, Zero};
use ark_serialize::CanonicalSerialize;

use fastcrypto_zkp::conversions::{
    bls_g2_affine_to_blst_g2_affine, blst_g2_affine_to_bls_g2_affine,
};
use fastcrypto_zkp::fast::BlstG2Affine;
use fastcrypto_zkp::negation::blst_g2_neg;
use fastcrypto_zkp::reference;

fn g2(p: &G2Affine) -> reference::G2Affine {
    let mut bytes = [0u8; 192];
    p.serialize_uncompressed(&mut bytes[..]).unwrap();
    reference::G2Affine::from_bytes(bytes).unwrap()
}

fn hex(text: &str) -> Vec<u8> {
    (0..text.len() / 2)
        .map(|i| u8::from_str_radix(&text[2 * i..2 * i + 2], 16).unwrap())
        .collect()
}

#[test]
fn negative_in_the_fast_representation_is_the_negative_in_the_reference_one() {
    let rng = &mut ark_std::test_rng();
    for _ in 0..20 {
        let q = G2Projective::rand(rng).into_affine();
        let fast = bls_g2_affine_to_blst_g2_affine(&g2(&q));
        let negative = blst_g2_neg(&fast);
        assert_eq!(negative, bls_g2_affine_to_blst_g2_affine(&g2(&(-q))));
        assert_eq!(blst_g2_affine_to_bls_g2_affine(&negative), g2(&(-q)));
        assert_ne!(negative, fast);
        assert_eq!(blst_g2_neg(&negative), fast);
    }
}

#[test]
fn negative_keeps_x_and_changes_y() {
    let rng = &mut ark_std::test_rng();
    let q = G2Projective::rand(rng).into_affine();
    let fast = bls_g2_affine_to_blst_g2_affine(&g2(&q)).to_bytes();
    let negative = blst_g2_neg(&BlstG2Affine::from_bytes(fast).unwrap()).to_bytes();
    assert_eq!(negative[..96], fast[..96]);
    assert_ne!(negative[96..144], fast[96..144]);
    assert_ne!(negative[144..], fast[144..]);
}

#[test]
fn infinity_is_its_own_negative() {
    let zero = bls_g2_affine_to_blst_g2_affine(&g2(&G2Affine::zero()));
    assert_eq!(blst_g2_neg(&zero), zero);
    assert_eq!(blst_g2_neg(&BlstG2Affine::infinity()), BlstG2Affine::infinity());
}

#[test]
fn negative_of_one_is_the_modulus_less_one_and_zero_stays() {
    // x = (5, 0), y = (1, 0): written second part first.
    let mut bytes = [0u8; 192];
    bytes[95] = 5;
    bytes[191] = 1;
    let negative = blst_g2_neg(&BlstG2Affine::from_bytes(bytes).unwrap()).to_bytes();
    let modulus_less_one = hex("1a0111ea397fe69a4b1ba7b6434bacd764774b84f38512bf6730d2a0f6b0f6241eabfffeb153ffffb9feffffffffaaaa");
    assert_eq!(negative[..96], bytes[..96]);
    assert_eq!(negative[96..144], [0u8; 48]);
    assert_eq!(negative[144..].to_vec(), modulus_less_one);
}
