//! Elements in the fast representation: the one that the pairing backend
//! reads.
//!
//! A scalar is 32 bytes, least significant first. A base-field element is 48
//! bytes, most significant first; a point is its coordinates one after the
//! other with the flags in the first byte, and in the second group the
//! second part of each coordinate comes before the first; an element of the
//! target field is its twelve coefficients, interleaved. Every value of
//! these types is well formed: the constructors refuse what is not.

use crate::encoding::{
    be_value, bytes_equal, fq_chunk, le_less_than, le_value, lemma_le_bytes_of_limbs_value,
    limbs_to_le_bytes,
};
use crate::error::Error;
use crate::field::{canonical_be, fr_modulus, fr_modulus_limbs};
use crate::point::{
    fast_infinity, fast_infinity_bytes, fast_point_value, fast_point_wf, is_canonical_be,
    is_fast_point, PointValue,
};
use vstd::prelude::*;

verus! {

/// A scalar: 32 bytes, least significant first, that spell a number below
/// the group order.
#[derive(Clone, Copy, Debug, PartialEq, Eq)]
pub struct BlstFr {
    pub(crate) bytes: [u8; 32],
}

impl View for BlstFr {
    type V = Seq<u8>;

    closed spec fn view(&self) -> Seq<u8> {
        self.bytes@
    }
}

impl BlstFr {
    /// Every scalar is canonical.
    #[verifier::type_invariant]
    pub open spec fn wf(self) -> bool {
        self@.len() == 32 && le_value(self@) < fr_modulus()
    }

    /// The number that the scalar is.
    pub open spec fn value(self) -> nat {
        le_value(self@)
    }

    /// The scalar that `bytes` spell, if that is a number below the group
    /// order.
    pub fn from_bytes(bytes: [u8; 32]) -> (r: Result<BlstFr, Error>)
        ensures
            le_value(bytes@) < fr_modulus() ==> r is Ok && r->Ok_0@ == bytes@,
            le_value(bytes@) >= fr_modulus() ==> r == Err::<BlstFr, Error>(Error::Conversion),
    {
        let modulus: [u64; 4] = fr_modulus_limbs();
        let m: [u8; 32] = limbs_to_le_bytes::<4, 32>(&modulus);
        proof {
            lemma_le_bytes_of_limbs_value(modulus@);
            assert(bytes@.subrange(0, 32) =~= bytes@);
        }
        if le_less_than(bytes.as_slice(), 0, m.as_slice()) {
            Ok(BlstFr { bytes })
        } else {
            Err(Error::Conversion)
        }
    }

    /// The scalar that the canonical `bytes` spell.
    pub(crate) fn from_wf_bytes(bytes: [u8; 32]) -> (r: BlstFr)
        requires
            le_value(bytes@) < fr_modulus(),
        ensures
            r@ == bytes@,
    {
        BlstFr { bytes }
    }

    /// The bytes of the scalar.
    pub fn to_bytes(&self) -> (r: [u8; 32])
        ensures
            r@ == self@,
    {
        self.bytes
    }
}

/// Where the fast representation keeps each coordinate of a point of the
/// first group: in the block of the same number.
pub open spec fn g1_order() -> Seq<usize> {
    seq![0usize, 1usize]
}

/// Where the fast representation keeps each coordinate of a point of the
/// second group: the two parts of a coordinate change places.
pub open spec fn g2_order() -> Seq<usize> {
    seq![1usize, 0usize, 3usize, 2usize]
}

/// Which coefficient of the tower the fast representation keeps in each of
/// its twelve blocks.
pub open spec fn fq12_order() -> Seq<usize> {
    seq![
        0usize,
        1usize,
        6usize,
        7usize,
        2usize,
        3usize,
        8usize,
        9usize,
        4usize,
        5usize,
        10usize,
        11usize,
    ]
}

/// In which block the fast representation keeps each coefficient of the
/// tower.
pub open spec fn fq12_place() -> Seq<usize> {
    seq![
        0usize,
        1usize,
        4usize,
        5usize,
        8usize,
        9usize,
        2usize,
        3usize,
        6usize,
        7usize,
        10usize,
        11usize,
    ]
}

/// A point of the first group, as 96 bytes: `x` then `y`, each most
/// significant byte first, with the flags in the first byte.
#[derive(Clone, Copy, Debug, PartialEq, Eq)]
pub struct BlstG1Affine {
    pub(crate) bytes: [u8; 96],
}

impl View for BlstG1Affine {
    type V = Seq<u8>;

    closed spec fn view(&self) -> Seq<u8> {
        self.bytes@
    }
}

impl BlstG1Affine {
    /// Every point is well formed.
    #[verifier::type_invariant]
    pub open spec fn wf(self) -> bool {
        fast_point_wf(self@, 2)
    }

    /// The point that this is.
    pub open spec fn value(self) -> PointValue {
        fast_point_value(self@, g1_order())
    }

    /// The point that `bytes` spell, if they are well formed.
    pub fn from_bytes(bytes: [u8; 96]) -> (r: Result<BlstG1Affine, Error>)
        ensures
            fast_point_wf(bytes@, 2) ==> r is Ok && r->Ok_0@ == bytes@,
            !fast_point_wf(bytes@, 2) ==> r == Err::<BlstG1Affine, Error>(Error::Conversion),
    {
        if is_fast_point::<96>(&bytes, 2) {
            Ok(BlstG1Affine { bytes })
        } else {
            Err(Error::Conversion)
        }
    }

    /// The point that the well-formed `bytes` spell.
    pub(crate) fn from_wf_bytes(bytes: [u8; 96]) -> (r: BlstG1Affine)
        requires
            fast_point_wf(bytes@, 2),
        ensures
            r@ == bytes@,
    {
        BlstG1Affine { bytes }
    }

    /// The point at infinity.
    pub fn infinity() -> (r: BlstG1Affine)
        ensures
            r@ == fast_infinity(2),
            r.value() == PointValue::Infinity,
    {
        BlstG1Affine { bytes: fast_infinity_bytes::<96>(2) }
    }

    /// Whether this is the point at infinity.
    pub fn is_infinity(&self) -> (r: bool)
        ensures
            r == (self.value() == PointValue::Infinity),
    {
        self.bytes[0] >= 32
    }

    /// The bytes of the point.
    pub fn to_bytes(&self) -> (r: [u8; 96])
        ensures
            r@ == self@,
    {
        self.bytes
    }
}

/// A point of the second group, as 192 bytes: the second and the first part of
/// `x`, then the second and the first part of `y`, each most significant byte
/// first, with the flags in the first byte.
#[derive(Clone, Copy, Debug, PartialEq, Eq)]
pub struct BlstG2Affine {
    pub(crate) bytes: [u8; 192],
}

impl View for BlstG2Affine {
    type V = Seq<u8>;

    closed spec fn view(&self) -> Seq<u8> {
        self.bytes@
    }
}

impl BlstG2Affine {
    /// Every point is well formed.
    #[verifier::type_invariant]
    pub open spec fn wf(self) -> bool {
        fast_point_wf(self@, 4)
    }

    /// The point that this is.
    pub open spec fn value(self) -> PointValue {
        fast_point_value(self@, g2_order())
    }

    /// The point that `bytes` spell, if they are well formed.
    pub fn from_bytes(bytes: [u8; 192]) -> (r: Result<BlstG2Affine, Error>)
        ensures
            fast_point_wf(bytes@, 4) ==> r is Ok && r->Ok_0@ == bytes@,
            !fast_point_wf(bytes@, 4) ==> r == Err::<BlstG2Affine, Error>(Error::Conversion),
    {
        if is_fast_point::<192>(&bytes, 4) {
            Ok(BlstG2Affine { bytes })
        } else {
            Err(Error::Conversion)
        }
    }

    /// The point that the well-formed `bytes` spell.
    pub(crate) fn from_wf_bytes(bytes: [u8; 192]) -> (r: BlstG2Affine)
        requires
            fast_point_wf(bytes@, 4),
        ensures
            r@ == bytes@,
    {
        BlstG2Affine { bytes }
    }

    /// The point at infinity.
    pub fn infinity() -> (r: BlstG2Affine)
        ensures
            r@ == fast_infinity(4),
            r.value() == PointValue::Infinity,
    {
        BlstG2Affine { bytes: fast_infinity_bytes::<192>(4) }
    }

    /// Whether this is the point at infinity.
    pub fn is_infinity(&self) -> (r: bool)
        ensures
            r == (self.value() == PointValue::Infinity),
    {
        self.bytes[0] >= 32
    }

    /// The bytes of the point.
    pub fn to_bytes(&self) -> (r: [u8; 192])
        ensures
            r@ == self@,
    {
        self.bytes
    }
}

/// The coefficients of a fast target-field element as numbers, in tower
/// order.
pub open spec fn fq12_fast_value(b: Seq<u8>) -> Seq<nat> {
    Seq::new(12, |k: int| be_value(fq_chunk(b, fq12_place()[k] as int)))
}

/// An element of the target field, as 576 bytes: its twelve coefficients
/// interleaved, each most significant byte first.
#[derive(Clone, Copy, Debug, PartialEq, Eq)]
pub struct BlstFp12 {
    pub(crate) bytes: [u8; 576],
}

impl View for BlstFp12 {
    type V = Seq<u8>;

    closed spec fn view(&self) -> Seq<u8> {
        self.bytes@
    }
}

impl BlstFp12 {
    /// Every coefficient is canonical.
    #[verifier::type_invariant]
    pub open spec fn wf(self) -> bool {
        self@.len() == 576 && canonical_be(self@, 12)
    }

    /// The twelve coefficients as numbers, in tower order.
    pub open spec fn value(self) -> Seq<nat> {
        fq12_fast_value(self@)
    }

    /// The element that `bytes` spell, if every coefficient is canonical.
    pub fn from_bytes(bytes: [u8; 576]) -> (r: Result<BlstFp12, Error>)
        ensures
            canonical_be(bytes@, 12) ==> r is Ok && r->Ok_0@ == bytes@,
            !canonical_be(bytes@, 12) ==> r == Err::<BlstFp12, Error>(Error::Conversion),
    {
        if is_canonical_be(bytes.as_slice(), 12) {
            Ok(BlstFp12 { bytes })
        } else {
            Err(Error::Conversion)
        }
    }

    /// The element that the canonical `bytes` spell.
    pub(crate) fn from_wf_bytes(bytes: [u8; 576]) -> (r: BlstFp12)
        requires
            canonical_be(bytes@, 12),
        ensures
            r@ == bytes@,
    {
        BlstFp12 { bytes }
    }

    /// Whether this and `other` are the same element.
    pub fn equals(&self, other: &BlstFp12) -> (r: bool)
        ensures
            r == (self@ == other@),
    {
        bytes_equal(self.bytes.as_slice(), other.bytes.as_slice())
    }

    /// The bytes of the element.
    pub fn to_bytes(&self) -> (r: [u8; 576])
        ensures
            r@ == self@,
    {
        self.bytes
    }
}

/// What one Miller loop leaves behind, or the product of several such
/// values: an element of the target field as the backend keeps it in memory,
/// twelve residues of six limbs each. It is not yet a pairing value; only
/// the final exponentiation makes one of it.
#[derive(Clone, Copy, Debug, PartialEq, Eq)]
pub struct BlstMillerValue {
    pub(crate) limbs: [[[[u64; 6]; 2]; 3]; 2],
}

/// The 72 limbs of a Miller-loop value in the order in which they lie in
/// memory.
pub open spec fn miller_limbs(limbs: [[[[u64; 6]; 2]; 3]; 2]) -> Seq<u64> {
    Seq::new(72, |i: int| limbs@[i / 36]@[(i / 12) % 3]@[(i / 6) % 2]@[i % 6])
}

impl View for BlstMillerValue {
    type V = Seq<u64>;

    closed spec fn view(&self) -> Seq<u64> {
        miller_limbs(self.limbs)
    }
}

impl BlstMillerValue {
    /// The limbs of the value, as the backend nests them.
    pub fn limbs(&self) -> (r: [[[[u64; 6]; 2]; 3]; 2])
        ensures
            miller_limbs(r) == self@,
    {
        self.limbs
    }
}

} // verus!
