use std::ops::{Mul, Neg};

use ark_bls12_381::{Bls12_381, Fq12, Fr};
use ark_crypto_primitives::SNARK;
use ark_ec::{AffineCurve, PairingEngine, ProjectiveCurve};
use ark_ff::{PrimeField, UniformRand};
use ark_groth16::Groth16;
use ark_relations::r1cs::{
    ConstraintSynthesizer, ConstraintSystemRef, LinearCombination, SynthesisError,
};
use ark_serialize::CanonicalSerialize;

use fastcrypto_zkp::conversions::{bls_fq12_to_blst_fp12, blst_fp12_to_bls_fq12};
use fastcrypto_zkp::error::Error;
use fastcrypto_zkp::reference;
use fastcrypto_zkp::verification::{
    ark_multipairing_with_prepared_vk, ark_process_vk, multipairing_with_processed_vk,
    process_vk_special, verify_with_processed_vk, ArkPreparedVerifyingKey, Proof, VerifyingKey,
};

#[derive(Copy, Clone)]
struct DummyCircuit<F: PrimeField> {
    pub a: Option<F>,
    pub b: Option<F>,
    pub num_variables: usize,
    pub num_constraints: usize,
}

impl<F: PrimeField> ConstraintSynthesizer<F> for DummyCircuit<F> {
    // We'll be proving a relationship involving the product c of a & b
    fn generate_constraints(self, cs: ConstraintSystemRef<F>) -> Result<(), SynthesisError> {
        let a = cs.new_witness_variable(|| self.a.ok_or(SynthesisError::AssignmentMissing))?;
        let b = cs.new_witness_variable(|| self.b.ok_or(SynthesisError::AssignmentMissing))?;
        let c = cs.new_input_variable(|| {
            let a = self.a.ok_or(SynthesisError::AssignmentMissing)?;
            let b = self.b.ok_or(SynthesisError::AssignmentMissing)?;

            Ok(a * b)
        })?;

        // a, b, c are above, let's define the rest.
        for _ in 0..(self.num_variables - 3) {
            let _ = cs.new_witness_variable(|| self.a.ok_or(SynthesisError::AssignmentMissing))?;
        }

        for _ in 0..self.num_constraints - 1 {
            cs.enforce_constraint(
                LinearCombination::zero() + a,
                LinearCombination::zero() + b,
                LinearCombination::zero() + c,
            )?;
        }

        cs.enforce_constraint(
            LinearCombination::zero(),
            LinearCombination::zero(),
            LinearCombination::zero(),
        )?;

        Ok(())
    }
}

fn scalar(s: &Fr) -> reference::Fr {
    reference::Fr::from_limbs(s.into_repr().0).unwrap()
}

fn g1(p: &ark_bls12_381::G1Affine) -> reference::G1Affine {
    let mut bytes = [0u8; 96];
    p.serialize_uncompressed(&mut bytes[..]).unwrap();
    reference::G1Affine::from_bytes(bytes).unwrap()
}

fn g2(p: &ark_bls12_381::G2Affine) -> reference::G2Affine {
    let mut bytes = [0u8; 192];
    p.serialize_uncompressed(&mut bytes[..]).unwrap();
    reference::G2Affine::from_bytes(bytes).unwrap()
}

fn fq12(f: &Fq12) -> reference::Fq12 {
    let mut bytes = [0u8; 576];
    f.serialize(&mut bytes[..]).unwrap();
    reference::Fq12::from_bytes(bytes).unwrap()
}

fn verifying_key(vk: &ark_groth16::VerifyingKey<Bls12_381>) -> VerifyingKey {
    VerifyingKey {
        alpha_g1: g1(&vk.alpha_g1),
        beta_g2: g2(&vk.beta_g2),
        gamma_g2: g2(&vk.gamma_g2),
        delta_g2: g2(&vk.delta_g2),
        gamma_abc_g1: vk.gamma_abc_g1.iter().map(g1).collect(),
    }
}

fn proof_of(proof: &ark_groth16::Proof<Bls12_381>) -> Proof {
    Proof {
        a: g1(&proof.a),
        b: g2(&proof.b),
        c: g1(&proof.c),
    }
}

fn prepared(
    vk: &ark_groth16::VerifyingKey<Bls12_381>,
    pvk: &ark_groth16::PreparedVerifyingKey<Bls12_381>,
) -> ArkPreparedVerifyingKey {
    ArkPreparedVerifyingKey {
        vk: verifying_key(vk),
        alpha_g1_beta_g2: fq12(&pvk.alpha_g1_beta_g2),
        gamma_g2_neg_pc: g2(&vk.gamma_g2.neg()),
        delta_g2_neg_pc: g2(&vk.delta_g2.neg()),
    }
}

#[test]
fn test_prepare_vk() {
    const PUBLIC_SIZE: usize = 128;
    let rng = &mut ark_std::test_rng();
    let c = DummyCircuit::<Fr> {
        a: Some(<Fr>::rand(rng)),
        b: Some(<Fr>::rand(rng)),
        num_variables: PUBLIC_SIZE,
        num_constraints: 65536,
    };

    let (_pk, vk) = Groth16::<Bls12_381>::circuit_specific_setup(c, rng).unwrap();

    let ark_pvk = Groth16::<Bls12_381>::process_vk(&vk).unwrap();
    let blst_pvk = ark_process_vk(&verifying_key(&vk)).unwrap();
    assert_eq!(fq12(&ark_pvk.alpha_g1_beta_g2), blst_pvk.alpha_g1_beta_g2);
}

#[test]
fn test_verify_with_processed_vk() {
    const PUBLIC_SIZE: usize = 128;
    let rng = &mut ark_std::test_rng();
    let c = DummyCircuit::<Fr> {
        a: Some(<Fr>::rand(rng)),
        b: Some(<Fr>::rand(rng)),
        num_variables: PUBLIC_SIZE,
        num_constraints: 65536,
    };

    let (pk, vk) = Groth16::<Bls12_381>::circuit_specific_setup(c, rng).unwrap();
    let proof = Groth16::<Bls12_381>::prove(&pk, c, rng).unwrap();
    let v = c.a.unwrap().mul(c.b.unwrap());

    let blst_pvk = process_vk_special(&verifying_key(&vk)).unwrap();

    assert!(verify_with_processed_vk(&blst_pvk, &vec![scalar(&v)], &proof_of(&proof)).unwrap());
}

#[test]
fn test_multipairing_with_processed_vk() {
    const PUBLIC_SIZE: usize = 128;
    let rng = &mut ark_std::test_rng();
    let c = DummyCircuit::<Fr> {
        a: Some(<Fr>::rand(rng)),
        b: Some(<Fr>::rand(rng)),
        num_variables: PUBLIC_SIZE,
        num_constraints: 65536,
    };

    let (pk, vk) = Groth16::<Bls12_381>::circuit_specific_setup(c, rng).unwrap();
    let proof = Groth16::<Bls12_381>::prove(&pk, c, rng).unwrap();
    let v = c.a.unwrap().mul(c.b.unwrap());

    let ark_pvk = Groth16::<Bls12_381>::process_vk(&vk).unwrap();
    let blst_pvk = process_vk_special(&verifying_key(&vk)).unwrap();

    let ark_fe =
        ark_multipairing_with_prepared_vk(&prepared(&vk, &ark_pvk), &proof_of(&proof), &vec![scalar(&v)])
            .unwrap();
    let blst_fe =
        multipairing_with_processed_vk(&blst_pvk, &vec![scalar(&v)], &proof_of(&proof)).unwrap();

    assert_eq!(bls_fq12_to_blst_fp12(&ark_fe), blst_fe);
}

#[test]
fn altered_public_input_is_rejected() {
    let rng = &mut ark_std::test_rng();
    let c = DummyCircuit::<Fr> {
        a: Some(<Fr>::rand(rng)),
        b: Some(<Fr>::rand(rng)),
        num_variables: 10,
        num_constraints: 16,
    };
    let (pk, vk) = Groth16::<Bls12_381>::circuit_specific_setup(c, rng).unwrap();
    let proof = Groth16::<Bls12_381>::prove(&pk, c, rng).unwrap();
    let v = c.a.unwrap().mul(c.b.unwrap());
    let pvk = process_vk_special(&verifying_key(&vk)).unwrap();

    assert_eq!(
        verify_with_processed_vk(&pvk, &vec![scalar(&v)], &proof_of(&proof)),
        Ok(true)
    );
    let wrong = v + Fr::from(1u64);
    assert_eq!(
        verify_with_processed_vk(&pvk, &vec![scalar(&wrong)], &proof_of(&proof)),
        Ok(false)
    );
}

#[test]
fn wrong_number_of_public_inputs_is_a_shape_error() {
    let rng = &mut ark_std::test_rng();
    let c = DummyCircuit::<Fr> {
        a: Some(<Fr>::rand(rng)),
        b: Some(<Fr>::rand(rng)),
        num_variables: 10,
        num_constraints: 16,
    };
    let (pk, vk) = Groth16::<Bls12_381>::circuit_specific_setup(c, rng).unwrap();
    let proof = Groth16::<Bls12_381>::prove(&pk, c, rng).unwrap();
    let v = c.a.unwrap().mul(c.b.unwrap());
    let pvk = process_vk_special(&verifying_key(&vk)).unwrap();
    let ark_pvk = Groth16::<Bls12_381>::process_vk(&vk).unwrap();

    assert_eq!(
        verify_with_processed_vk(&pvk, &vec![], &proof_of(&proof)),
        Err(Error::Shape)
    );
    assert_eq!(
        verify_with_processed_vk(&pvk, &vec![scalar(&v), scalar(&v)], &proof_of(&proof)),
        Err(Error::Shape)
    );
    assert_eq!(
        multipairing_with_processed_vk(&pvk, &vec![], &proof_of(&proof)),
        Err(Error::Shape)
    );
    assert_eq!(
        ark_multipairing_with_prepared_vk(&prepared(&vk, &ark_pvk), &proof_of(&proof), &vec![]),
        Err(Error::Shape)
    );
}

#[test]
fn processing_twice_gives_the_same_key() {
    let rng = &mut ark_std::test_rng();
    let c = DummyCircuit::<Fr> {
        a: Some(<Fr>::rand(rng)),
        b: Some(<Fr>::rand(rng)),
        num_variables: 10,
        num_constraints: 16,
    };
    let (_pk, vk) = Groth16::<Bls12_381>::circuit_specific_setup(c, rng).unwrap();
    let key = verifying_key(&vk);
    assert_eq!(process_vk_special(&key), process_vk_special(&key.clone()));
    assert_eq!(ark_process_vk(&key), ark_process_vk(&key.clone()));
}

#[test]
fn fast_and_reference_processing_agree() {
    let rng = &mut ark_std::test_rng();
    let c = DummyCircuit::<Fr> {
        a: Some(<Fr>::rand(rng)),
        b: Some(<Fr>::rand(rng)),
        num_variables: 10,
        num_constraints: 16,
    };
    let (_pk, vk) = Groth16::<Bls12_381>::circuit_specific_setup(c, rng).unwrap();
    let ark_pvk = Groth16::<Bls12_381>::process_vk(&vk).unwrap();
    let key = verifying_key(&vk);
    let fast = process_vk_special(&key).unwrap();
    let reference = ark_process_vk(&key).unwrap();

    assert_eq!(fast.vk, key);
    assert_eq!(blst_fp12_to_bls_fq12(&fast.alpha_g1_beta_g2), fq12(&ark_pvk.alpha_g1_beta_g2));
    assert_eq!(reference, prepared(&vk, &ark_pvk));
}

#[test]
fn key_without_public_inputs_is_supported() {
    let rng = &mut ark_std::test_rng();
    let point1 = |rng: &mut _| ark_bls12_381::G1Projective::rand(rng).into_affine();
    let point2 = |rng: &mut _| ark_bls12_381::G2Projective::rand(rng).into_affine();
    let (alpha, beta, gamma, delta) = (point1(rng), point2(rng), point2(rng), point2(rng));
    let constant = point1(rng);
    let (a, b, c) = (point1(rng), point2(rng), point1(rng));
    let key = VerifyingKey {
        alpha_g1: g1(&alpha),
        beta_g2: g2(&beta),
        gamma_g2: g2(&gamma),
        delta_g2: g2(&delta),
        gamma_abc_g1: vec![g1(&constant)],
    };
    let proof = Proof { a: g1(&a), b: g2(&b), c: g1(&c) };
    let pvk = process_vk_special(&key).unwrap();

    let expected = Bls12_381::product_of_pairings(&[
        (a.into(), b.into()),
        (constant.into(), gamma.neg().into()),
        (c.into(), delta.neg().into()),
    ]);
    let value = multipairing_with_processed_vk(&pvk, &vec![], &proof).unwrap();
    assert_eq!(blst_fp12_to_bls_fq12(&value), fq12(&expected));
    assert_eq!(verify_with_processed_vk(&pvk, &vec![], &proof), Ok(false));

    let ark_pvk = ArkPreparedVerifyingKey {
        vk: key.clone(),
        alpha_g1_beta_g2: fq12(&Bls12_381::pairing(alpha, beta)),
        gamma_g2_neg_pc: g2(&gamma.neg()),
        delta_g2_neg_pc: g2(&delta.neg()),
    };
    assert_eq!(
        ark_multipairing_with_prepared_vk(&ark_pvk, &proof, &vec![]),
        Ok(fq12(&expected))
    );
}

#[test]
fn reference_multipairing_is_the_product_of_single_miller_loops() {
    let rng = &mut ark_std::test_rng();
    let point1 = |rng: &mut _| ark_bls12_381::G1Projective::rand(rng).into_affine();
    let point2 = |rng: &mut _| ark_bls12_381::G2Projective::rand(rng).into_affine();
    let (alpha, beta, gamma, delta) = (point1(rng), point2(rng), point2(rng), point2(rng));
    let (constant, weighted) = (point1(rng), point1(rng));
    let (a, b, c) = (point1(rng), point2(rng), point1(rng));
    let input = Fr::rand(rng);
    let key = VerifyingKey {
        alpha_g1: g1(&alpha),
        beta_g2: g2(&beta),
        gamma_g2: g2(&gamma),
        delta_g2: g2(&delta),
        gamma_abc_g1: vec![g1(&constant), g1(&weighted)],
    };
    let proof = Proof { a: g1(&a), b: g2(&b), c: g1(&c) };
    let ark_pvk = ArkPreparedVerifyingKey {
        vk: key.clone(),
        alpha_g1_beta_g2: fq12(&Bls12_381::pairing(alpha, beta)),
        gamma_g2_neg_pc: g2(&gamma.neg()),
        delta_g2_neg_pc: g2(&delta.neg()),
    };

    let g_ic = (constant.into_projective() + weighted.mul(input.into_repr())).into_affine();
    let single = |p: ark_bls12_381::G1Affine, q: ark_bls12_381::G2Affine| {
        Bls12_381::miller_loop([(p.into(), q.into())].iter())
    };
    let product = single(a, b) * single(g_ic, gamma.neg()) * single(c, delta.neg());
    let other_order = single(c, delta.neg()) * single(a, b) * single(g_ic, gamma.neg());
    assert_eq!(product, other_order);
    let expected = Bls12_381::final_exponentiation(&product).unwrap();

    assert_eq!(
        ark_multipairing_with_prepared_vk(&ark_pvk, &proof, &vec![scalar(&input)]),
        Ok(fq12(&expected))
    );
    let pvk = process_vk_special(&key).unwrap();
    let fast = multipairing_with_processed_vk(&pvk, &vec![scalar(&input)], &proof).unwrap();
    assert_eq!(blst_fp12_to_bls_fq12(&fast), fq12(&expected));
}
