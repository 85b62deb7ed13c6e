//! Elements in the reference representation: the one in which verifying
//! keys and proofs are handed over.
//!
//! A scalar is four 64-bit limbs. A base-field element is 48 bytes, least
//! significant first; a point is its coordinates one after the other with
//! the flags in the last byte; an element of the target field is its twelve
//! coefficients in tower order. Every value of these types is well formed:
//! the constructors refuse what is not.

use crate::encoding::{
    bytes_equal, fq_chunk, le_less_than, le_value, lemma_le_bytes_of_limbs_value, limbs_to_le_bytes,
    limbs_value,
};
use crate::error::Error;
use crate::field::{canonical_le, fr_modulus, fr_modulus_limbs, is_canonical_le};
use crate::point::{
    is_reference_point, reference_infinity, reference_infinity_bytes, reference_point_value,
    reference_point_wf, PointValue,
};
use vstd::prelude::*;

verus! {

/// A scalar: four 64-bit limbs, least significant first, that spell a number
/// below the group order.
#[derive(Clone, Copy, Debug, PartialEq, Eq)]
pub struct Fr {
    pub(crate) limbs: [u64; 4],
}

impl View for Fr {
    type V = Seq<u64>;

    closed spec fn view(&self) -> Seq<u64> {
        self.limbs@
    }
}

impl Fr {
    /// Every scalar is canonical.
    #[verifier::type_invariant]
    pub open spec fn wf(self) -> bool {
        self@.len() == 4 && limbs_value(self@) < fr_modulus()
    }

    /// The number that the scalar is.
    pub open spec fn value(self) -> nat {
        limbs_value(self@)
    }

    /// The scalar with the limbs `limbs`, if they spell a number below the
    /// group order.
    pub fn from_limbs(limbs: [u64; 4]) -> (r: Result<Fr, Error>)
        ensures
            limbs_value(limbs@) < fr_modulus() ==> r is Ok && r->Ok_0@ == limbs@,
            limbs_value(limbs@) >= fr_modulus() ==> r == Err::<Fr, Error>(Error::Conversion),
    {
        let modulus: [u64; 4] = fr_modulus_limbs();
        let m: [u8; 32] = limbs_to_le_bytes::<4, 32>(&modulus);
        let b: [u8; 32] = limbs_to_le_bytes::<4, 32>(&limbs);
        proof {
            lemma_le_bytes_of_limbs_value(modulus@);
            lemma_le_bytes_of_limbs_value(limbs@);
            assert(b@.subrange(0, 32) =~= b@);
        }
        if le_less_than(b.as_slice(), 0, m.as_slice()) {
            Ok(Fr { limbs })
        } else {
            Err(Error::Conversion)
        }
    }

    /// The scalar with the canonical limbs `limbs`.
    pub(crate) fn from_wf_limbs(limbs: [u64; 4]) -> (r: Fr)
        requires
            limbs_value(limbs@) < fr_modulus(),
        ensures
            r@ == limbs@,
    {
        Fr { limbs }
    }

    /// The limbs of the scalar.
    pub fn limbs(&self) -> (r: [u64; 4])
        ensures
            r@ == self@,
    {
        self.limbs
    }
}

/// A point of the first group, as 96 bytes: `x` then `y`, each least
/// significant byte first, with the flags in the last byte.
#[derive(Clone, Copy, Debug, PartialEq, Eq)]
pub struct G1Affine {
    pub(crate) bytes: [u8; 96],
}

impl View for G1Affine {
    type V = Seq<u8>;

    closed spec fn view(&self) -> Seq<u8> {
        self.bytes@
    }
}

impl G1Affine {
    /// Every point is well formed.
    #[verifier::type_invariant]
    pub open spec fn wf(self) -> bool {
        reference_point_wf(self@, 2)
    }

    /// The point that this is.
    pub open spec fn value(self) -> PointValue {
        reference_point_value(self@, 2)
    }

    /// The point that `bytes` spell, if they are well formed.
    pub fn from_bytes(bytes: [u8; 96]) -> (r: Result<G1Affine, Error>)
        ensures
            reference_point_wf(bytes@, 2) ==> r is Ok && r->Ok_0@ == bytes@,
            !reference_point_wf(bytes@, 2) ==> r == Err::<G1Affine, Error>(Error::Conversion),
    {
        if is_reference_point::<96>(&bytes, 2) {
            Ok(G1Affine { bytes })
        } else {
            Err(Error::Conversion)
        }
    }

    /// The point that the well-formed `bytes` spell.
    pub(crate) fn from_wf_bytes(bytes: [u8; 96]) -> (r: G1Affine)
        requires
            reference_point_wf(bytes@, 2),
        ensures
            r@ == bytes@,
    {
        G1Affine { bytes }
    }

    /// The point at infinity.
    pub fn infinity() -> (r: G1Affine)
        ensures
            r@ == reference_infinity(2),
            r.value() == PointValue::Infinity,
    {
        G1Affine { bytes: reference_infinity_bytes::<96>(2) }
    }

    /// Whether this is the point at infinity.
    pub fn is_infinity(&self) -> (r: bool)
        ensures
            r == (self.value() == PointValue::Infinity),
    {
        self.bytes[95] >= 64
    }

    /// The bytes of the point.
    pub fn to_bytes(&self) -> (r: [u8; 96])
        ensures
            r@ == self@,
    {
        self.bytes
    }
}

/// A point of the second group, as 192 bytes: the two parts of `x`, then the two
/// parts of `y`, each least significant byte first, with the flags in the last
/// byte.
#[derive(Clone, Copy, Debug, PartialEq, Eq)]
pub struct G2Affine {
    pub(crate) bytes: [u8; 192],
}

impl View for G2Affine {
    type V = Seq<u8>;

    closed spec fn view(&self) -> Seq<u8> {
        self.bytes@
    }
}

impl G2Affine {
    /// Every point is well formed.
    #[verifier::type_invariant]
    pub open spec fn wf(self) -> bool {
        reference_point_wf(self@, 4)
    }

    /// The point that this is.
    pub open spec fn value(self) -> PointValue {
        reference_point_value(self@, 4)
    }

    /// The point that `bytes` spell, if they are well formed.
    pub fn from_bytes(bytes: [u8; 192]) -> (r: Result<G2Affine, Error>)
        ensures
            reference_point_wf(bytes@, 4) ==> r is Ok && r->Ok_0@ == bytes@,
            !reference_point_wf(bytes@, 4) ==> r == Err::<G2Affine, Error>(Error::Conversion),
    {
        if is_reference_point::<192>(&bytes, 4) {
            Ok(G2Affine { bytes })
        } else {
            Err(Error::Conversion)
        }
    }

    /// The point that the well-formed `bytes` spell.
    pub(crate) fn from_wf_bytes(bytes: [u8; 192]) -> (r: G2Affine)
        requires
            reference_point_wf(bytes@, 4),
        ensures
            r@ == bytes@,
    {
        G2Affine { bytes }
    }

    /// The point at infinity.
    pub fn infinity() -> (r: G2Affine)
        ensures
            r@ == reference_infinity(4),
            r.value() == PointValue::Infinity,
    {
        G2Affine { bytes: reference_infinity_bytes::<192>(4) }
    }

    /// Whether this is the point at infinity.
    pub fn is_infinity(&self) -> (r: bool)
        ensures
            r == (self.value() == PointValue::Infinity),
    {
        self.bytes[191] >= 64
    }

    /// The bytes of the point.
    pub fn to_bytes(&self) -> (r: [u8; 192])
        ensures
            r@ == self@,
    {
        self.bytes
    }
}

/// The coefficients of a reference target-field element as numbers.
pub open spec fn fq12_reference_value(b: Seq<u8>) -> Seq<nat> {
    Seq::new(12, |k: int| le_value(fq_chunk(b, k)))
}

/// An element of the target field, as 576 bytes: its twelve coefficients
/// in tower order, each least significant byte first.
#[derive(Clone, Copy, Debug, PartialEq, Eq)]
pub struct Fq12 {
    pub(crate) bytes: [u8; 576],
}

impl View for Fq12 {
    type V = Seq<u8>;

    closed spec fn view(&self) -> Seq<u8> {
        self.bytes@
    }
}

impl Fq12 {
    /// Every coefficient is canonical.
    #[verifier::type_invariant]
    pub open spec fn wf(self) -> bool {
        self@.len() == 576 && canonical_le(self@, 12)
    }

    /// The twelve coefficients as numbers, in tower order.
    pub open spec fn value(self) -> Seq<nat> {
        fq12_reference_value(self@)
    }

    /// The element that `bytes` spell, if every coefficient is canonical.
    pub fn from_bytes(bytes: [u8; 576]) -> (r: Result<Fq12, Error>)
        ensures
            canonical_le(bytes@, 12) ==> r is Ok && r->Ok_0@ == bytes@,
            !canonical_le(bytes@, 12) ==> r == Err::<Fq12, Error>(Error::Conversion),
    {
        if is_canonical_le(bytes.as_slice(), 12) {
            Ok(Fq12 { bytes })
        } else {
            Err(Error::Conversion)
        }
    }

    /// The element that the canonical `bytes` spell.
    pub(crate) fn from_wf_bytes(bytes: [u8; 576]) -> (r: Fq12)
        requires
            canonical_le(bytes@, 12),
        ensures
            r@ == bytes@,
    {
        Fq12 { bytes }
    }

    /// Whether this and `other` are the same element.
    pub fn equals(&self, other: &Fq12) -> (r: bool)
        ensures
            r == (self@ == other@),
    {
        bytes_equal(self.bytes.as_slice(), other.bytes.as_slice())
    }

    /// The bytes of the element.
    pub fn to_bytes(&self) -> (r: [u8; 576])
        ensures
            r@ == self@,
    {
        self.bytes
    }
}

} // verus!
