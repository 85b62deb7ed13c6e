use ark_bls12_381::{Bls12_381, Fq12, Fr, G1Affine, G1Projective, G2Affine, G2Projective};
use ark_ec::{AffineCurve, PairingEngine, ProjectiveCurve};
use ark_ff::{PrimeField, UniformRand, Zero};
use ark_serialize::CanonicalSerialize;

use fastcrypto_zkp::conversions::{
    bls_fq12_to_blst_fp12, bls_fr_to_blst_fr, bls_g1_affine_to_blst_g1_affine,
    bls_g2_affine_to_blst_g2_affine, blst_fp12_to_bls_fq12, blst_fr_to_bls_fr,
    blst_g1_affine_to_bls_g1_affine, blst_g2_affine_to_bls_g2_affine,
};
use fastcrypto_zkp::error::Error;
use fastcrypto_zkp::fast::{BlstFp12, BlstFr, BlstG1Affine, BlstG2Affine};
use fastcrypto_zkp::reference;

fn scalar(s: &Fr) -> reference::Fr {
    reference::Fr::from_limbs(s.into_repr().0).unwrap()
}

fn g1_bytes(p: &G1Affine) -> [u8; 96] {
    let mut bytes = [0u8; 96];
    p.serialize_uncompressed(&mut bytes[..]).unwrap();
    bytes
}

fn g2_bytes(p: &G2Affine) -> [u8; 192] {
    let mut bytes = [0u8; 192];
    p.serialize_uncompressed(&mut bytes[..]).unwrap();
    bytes
}

fn fq12_bytes(f: &Fq12) -> [u8; 576] {
    let mut bytes = [0u8; 576];
    f.serialize(&mut bytes[..]).unwrap();
    bytes
}

fn hex(text: &str) -> Vec<u8> {
    (0..text.len() / 2)
        .map(|i| u8::from_str_radix(&text[2 * i..2 * i + 2], 16).unwrap())
        .collect()
}

const G1_GENERATOR: &str = "17f1d3a73197d7942695638c4fa9ac0fc3688c4f9774b905a14e3a3f171bac586c55e83ff97a1aeffb3af00adb22c6bb08b3f481e3aaa0f1a09e30ed741d8ae4fcf5e095d5d00af600db18cb2c04b3edd03cc744a2888ae40caa232946c5e7e1";

const G2_GENERATOR: &str = "13e02b6052719f607dacd3a088274f65596bd0d09920b61ab5da61bbdc7f5049334cf11213945d57e5ac7d055d042b7e024aa2b2f08f0a91260805272dc51051c6e47ad4fa403b02b4510b647ae3d1770bac0326a805bbefd48056c8c121bdb80606c4a02ea734cc32acd2b02bc28b99cb3e287e85a763af267492ab572e99ab3f370d275cec1da1aaa9075ff05f79be0ce5d527727d6e118cc9cdc6da2e351aadfd9baa8cbdd3a76d429a695160d12c923ac9cc3baca289e193548608b82801";

#[test]
fn scalar_goes_over_as_its_little_endian_bytes() {
    let s = reference::Fr::from_limbs([0x0807060504030201, 0x100f0e0d0c0b0a09, 0, 0x0100000000000000])
        .unwrap();
    let fast = bls_fr_to_blst_fr(&s);
    let mut expected = [0u8; 32];
    for i in 0..16 {
        expected[i] = (i + 1) as u8;
    }
    expected[31] = 1;
    assert_eq!(fast.to_bytes(), expected);
    assert_eq!(blst_fr_to_bls_fr(&fast), s);
}

#[test]
fn random_scalars_come_back_unchanged() {
    let rng = &mut ark_std::test_rng();
    for _ in 0..20 {
        let s = scalar(&Fr::rand(rng));
        assert_eq!(blst_fr_to_bls_fr(&bls_fr_to_blst_fr(&s)), s);
        let f = bls_fr_to_blst_fr(&s);
        assert_eq!(bls_fr_to_blst_fr(&blst_fr_to_bls_fr(&f)), f);
    }
}

#[test]
fn generator_of_the_first_group_goes_over_to_its_known_spelling() {
    let g = reference::G1Affine::from_bytes(g1_bytes(&G1Affine::prime_subgroup_generator())).unwrap();
    let fast = bls_g1_affine_to_blst_g1_affine(&g);
    assert_eq!(fast.to_bytes().to_vec(), hex(G1_GENERATOR));
    assert_eq!(blst_g1_affine_to_bls_g1_affine(&fast), g);
}

#[test]
fn generator_of_the_second_group_goes_over_to_its_known_spelling() {
    let g = reference::G2Affine::from_bytes(g2_bytes(&G2Affine::prime_subgroup_generator())).unwrap();
    let fast = bls_g2_affine_to_blst_g2_affine(&g);
    assert_eq!(fast.to_bytes().to_vec(), hex(G2_GENERATOR));
    assert_eq!(blst_g2_affine_to_bls_g2_affine(&fast), g);
}

#[test]
fn fast_points_are_read_by_the_fast_backend() {
    let rng = &mut ark_std::test_rng();
    for _ in 0..10 {
        let p = G1Projective::rand(rng).into_affine();
        let fast = bls_g1_affine_to_blst_g1_affine(&reference::G1Affine::from_bytes(g1_bytes(&p)).unwrap());
        let read = blst::min_pk::PublicKey::deserialize(&fast.to_bytes()).unwrap();
        assert_eq!(read.serialize(), fast.to_bytes());

        let q = G2Projective::rand(rng).into_affine();
        let fast = bls_g2_affine_to_blst_g2_affine(&reference::G2Affine::from_bytes(g2_bytes(&q)).unwrap());
        let read = blst::min_sig::PublicKey::deserialize(&fast.to_bytes()).unwrap();
        assert_eq!(read.serialize(), fast.to_bytes());
    }
}

#[test]
fn random_points_come_back_unchanged() {
    let rng = &mut ark_std::test_rng();
    for _ in 0..10 {
        let p = reference::G1Affine::from_bytes(g1_bytes(&G1Projective::rand(rng).into_affine())).unwrap();
        assert_eq!(blst_g1_affine_to_bls_g1_affine(&bls_g1_affine_to_blst_g1_affine(&p)), p);
        let f = bls_g1_affine_to_blst_g1_affine(&p);
        assert_eq!(bls_g1_affine_to_blst_g1_affine(&blst_g1_affine_to_bls_g1_affine(&f)), f);

        let q = reference::G2Affine::from_bytes(g2_bytes(&G2Projective::rand(rng).into_affine())).unwrap();
        assert_eq!(blst_g2_affine_to_bls_g2_affine(&bls_g2_affine_to_blst_g2_affine(&q)), q);
        let f = bls_g2_affine_to_blst_g2_affine(&q);
        assert_eq!(bls_g2_affine_to_blst_g2_affine(&blst_g2_affine_to_bls_g2_affine(&f)), f);
    }
}

#[test]
fn infinity_goes_over_to_infinity() {
    let zero = reference::G1Affine::from_bytes(g1_bytes(&G1Affine::zero())).unwrap();
    assert_eq!(zero, reference::G1Affine::infinity());
    assert!(zero.is_infinity());
    let fast = bls_g1_affine_to_blst_g1_affine(&zero);
    assert_eq!(fast, BlstG1Affine::infinity());
    assert!(fast.is_infinity());
    let mut expected = [0u8; 96];
    expected[0] = 0x40;
    assert_eq!(fast.to_bytes(), expected);
    assert_eq!(blst_g1_affine_to_bls_g1_affine(&fast), zero);

    let zero = reference::G2Affine::from_bytes(g2_bytes(&G2Affine::zero())).unwrap();
    assert_eq!(zero, reference::G2Affine::infinity());
    let fast = bls_g2_affine_to_blst_g2_affine(&zero);
    assert_eq!(fast, BlstG2Affine::infinity());
    let mut expected = [0u8; 192];
    expected[0] = 0x40;
    assert_eq!(fast.to_bytes(), expected);
    assert_eq!(blst_g2_affine_to_bls_g2_affine(&fast), zero);
}

#[test]
fn finite_points_are_not_infinity() {
    let g = reference::G1Affine::from_bytes(g1_bytes(&G1Affine::prime_subgroup_generator())).unwrap();
    assert!(!g.is_infinity());
    assert!(!bls_g1_affine_to_blst_g1_affine(&g).is_infinity());
}

#[test]
fn target_field_element_goes_over_as_the_fast_backend_writes_it() {
    let rng = &mut ark_std::test_rng();
    let p = G1Projective::rand(rng).into_affine();
    let q = G2Projective::rand(rng).into_affine();
    let value = Bls12_381::pairing(p, q);
    let f = reference::Fq12::from_bytes(fq12_bytes(&value)).unwrap();
    let fast = bls_fq12_to_blst_fp12(&f);

    let p1: blst::blst_p1_affine = blst::min_pk::PublicKey::deserialize(
        &bls_g1_affine_to_blst_g1_affine(&reference::G1Affine::from_bytes(g1_bytes(&p)).unwrap()).to_bytes(),
    )
    .unwrap()
    .into();
    let p2: blst::blst_p2_affine = blst::min_sig::PublicKey::deserialize(
        &bls_g2_affine_to_blst_g2_affine(&reference::G2Affine::from_bytes(g2_bytes(&q)).unwrap()).to_bytes(),
    )
    .unwrap()
    .into();
    let expected = blst::blst_fp12::miller_loop(&p2, &p1).final_exp().to_bendian();
    assert_eq!(fast.to_bytes(), expected);
    assert_eq!(blst_fp12_to_bls_fq12(&fast), f);
    assert_eq!(
        bls_fq12_to_blst_fp12(&blst_fp12_to_bls_fq12(&fast)),
        fast
    );
}

#[test]
fn target_field_coefficients_change_places() {
    let mut bytes = [0u8; 576];
    for k in 0..12 {
        bytes[48 * k] = (k + 1) as u8;
    }
    let f = reference::Fq12::from_bytes(bytes).unwrap();
    let fast = bls_fq12_to_blst_fp12(&f).to_bytes();
    let order = [0usize, 1, 6, 7, 2, 3, 8, 9, 4, 5, 10, 11];
    for block in 0..12 {
        for i in 0..47 {
            assert_eq!(fast[48 * block + i], 0);
        }
        assert_eq!(fast[48 * block + 47], (order[block] + 1) as u8);
    }
}

#[test]
fn coordinate_equal_to_the_modulus_is_refused() {
    let modulus = hex("1a0111ea397fe69a4b1ba7b6434bacd764774b84f38512bf6730d2a0f6b0f6241eabfffeb153ffffb9feffffffffaaab");
    let mut reference_bytes = [0u8; 96];
    let mut fast_bytes = [0u8; 96];
    for i in 0..48 {
        reference_bytes[i] = modulus[47 - i];
        fast_bytes[48 + i] = modulus[i];
    }
    assert_eq!(reference::G1Affine::from_bytes(reference_bytes), Err(Error::Conversion));
    assert_eq!(BlstG1Affine::from_bytes(fast_bytes), Err(Error::Conversion));

    reference_bytes[0] -= 1;
    fast_bytes[95] -= 1;
    assert!(reference::G1Affine::from_bytes(reference_bytes).is_ok());
    assert!(BlstG1Affine::from_bytes(fast_bytes).is_ok());

    let mut element = [0u8; 576];
    for i in 0..48 {
        element[48 * 11 + i] = modulus[47 - i];
    }
    assert_eq!(reference::Fq12::from_bytes(element), Err(Error::Conversion));
    let mut element = [0u8; 576];
    for i in 0..48 {
        element[48 * 5 + i] = modulus[i];
    }
    assert_eq!(BlstFp12::from_bytes(element), Err(Error::Conversion));
}

#[test]
fn flags_that_do_not_belong_are_refused() {
    let mut bytes = g1_bytes(&G1Affine::prime_subgroup_generator());
    bytes[95] |= 0x80;
    assert_eq!(reference::G1Affine::from_bytes(bytes), Err(Error::Conversion));

    let mut bytes = g1_bytes(&G1Affine::prime_subgroup_generator());
    bytes[95] |= 0x40;
    assert_eq!(reference::G1Affine::from_bytes(bytes), Err(Error::Conversion));

    let mut bytes = g2_bytes(&G2Affine::zero());
    bytes[3] = 1;
    assert_eq!(reference::G2Affine::from_bytes(bytes), Err(Error::Conversion));

    let mut bytes = [0u8; 96];
    bytes[0] = 0x80;
    assert_eq!(BlstG1Affine::from_bytes(bytes), Err(Error::Conversion));
    bytes[0] = 0x20;
    assert_eq!(BlstG1Affine::from_bytes(bytes), Err(Error::Conversion));
    bytes[0] = 0x40;
    bytes[95] = 1;
    assert_eq!(BlstG1Affine::from_bytes(bytes), Err(Error::Conversion));
    let mut bytes = [0u8; 192];
    bytes[0] = 0x41;
    assert_eq!(BlstG2Affine::from_bytes(bytes), Err(Error::Conversion));
}

#[test]
fn scalars_at_the_order_are_refused() {
    let order: [u64; 4] = [
        0xffff_ffff_0000_0001,
        0x53bd_a402_fffe_5bfe,
        0x3339_d808_09a1_d805,
        0x73ed_a753_299d_7d48,
    ];
    assert_eq!(reference::Fr::from_limbs(order), Err(Error::Conversion));
    assert_eq!(reference::Fr::from_limbs([u64::MAX; 4]), Err(Error::Conversion));
    let mut below = order;
    below[0] -= 1;
    let s = reference::Fr::from_limbs(below).unwrap();
    assert_eq!(s.limbs(), below);

    let mut bytes = [0u8; 32];
    for i in 0..4 {
        bytes[8 * i..8 * i + 8].copy_from_slice(&order[i].to_le_bytes());
    }
    assert_eq!(BlstFr::from_bytes(bytes), Err(Error::Conversion));
    bytes[0] -= 1;
    assert_eq!(BlstFr::from_bytes(bytes).unwrap(), bls_fr_to_blst_fr(&s));
}
