//! How a point of either group is written as bytes.
//!
//! A point has `coords` base-field coordinates: two in the first group, four
//! in the second. Each representation writes them as 48-byte blocks and
//! keeps a flag for the point at infinity in the spare top bits of one byte.
//!
//! The reference representation writes every coordinate least significant
//! byte first and carries its flags in the last byte of the string: bit 6
//! marks infinity, whose one accepted spelling has the coordinates
//! `(0, 1)`; bit 7 is not used.
//!
//! The fast representation writes every coordinate most significant byte
//! first and carries its flags in the first byte: bit 6 marks infinity,
//! spelled with every other bit clear; bits 7 and 5 are not used.

use crate::encoding::{
    be_value, bytes_equal, fq_chunk, is_chunk_order, le_less_than, le_value,
    lemma_le_bytes_of_limbs_value, lemma_le_value_injective, lemma_reorder_reversed_chunk,
    lemma_reorder_reversed_inverse, limbs_to_le_bytes, reorder_reversed, reorder_reversed_bytes,
};
use crate::field::{
    canonical_be, canonical_le, fq_modulus, fq_modulus_limbs, fq_neg, is_canonical_le,
    lemma_canonical_top_byte,
};
use vstd::prelude::*;

verus! {

/// The point that a string of bytes stands for.
pub enum PointValue {
    /// The neutral element.
    Infinity,
    /// A finite point, by its coordinates as numbers: `x`, `y` in the first
    /// group; the two parts of `x`, then the two parts of `y`, in the second.
    Affine(Seq<nat>),
}

/// The negative of a point of the second group: infinity stays, and a finite
/// point keeps `x` and has both parts of `y` negated.
pub open spec fn g2_neg_value(q: PointValue) -> PointValue {
    match q {
        PointValue::Infinity => PointValue::Infinity,
        PointValue::Affine(c) => PointValue::Affine(seq![c[0], c[1], fq_neg(c[2]), fq_neg(c[3])]),
    }
}

/// The reference spelling of the point at infinity.
pub open spec fn reference_infinity(coords: int) -> Seq<u8> {
    Seq::new(
        (48 * coords) as nat,
        |i: int|
            if i == 24 * coords {
                1u8
            } else if i == 48 * coords - 1 {
                64u8
            } else {
                0u8
            },
    )
}

/// The fast spelling of the point at infinity.
pub open spec fn fast_infinity(coords: int) -> Seq<u8> {
    Seq::new(
        (48 * coords) as nat,
        |i: int|
            if i == 0 {
                64u8
            } else {
                0u8
            },
    )
}

/// Whether `b` is a well-formed reference spelling of a point.
pub open spec fn reference_point_wf(b: Seq<u8>, coords: int) -> bool {
    &&& b.len() == 48 * coords
    &&& if b[48 * coords - 1] >= 64 {
        b == reference_infinity(coords)
    } else {
        canonical_le(b, coords)
    }
}

/// Whether `b` is a well-formed fast spelling of a point.
pub open spec fn fast_point_wf(b: Seq<u8>, coords: int) -> bool {
    &&& b.len() == 48 * coords
    &&& if b[0] >= 32 {
        b == fast_infinity(coords)
    } else {
        canonical_be(b, coords)
    }
}

/// The point that the reference spelling `b` stands for.
pub open spec fn reference_point_value(b: Seq<u8>, coords: int) -> PointValue {
    if b[48 * coords - 1] >= 64 {
        PointValue::Infinity
    } else {
        PointValue::Affine(Seq::new(coords as nat, |k: int| le_value(fq_chunk(b, k))))
    }
}

/// The point that the fast spelling `b` stands for, where coordinate `k`
/// stands in block `place[k]`.
pub open spec fn fast_point_value(b: Seq<u8>, place: Seq<usize>) -> PointValue {
    if b[0] >= 32 {
        PointValue::Infinity
    } else {
        PointValue::Affine(Seq::new(place.len(), |k: int| be_value(fq_chunk(b, place[k] as int))))
    }
}

/// The fast spelling of the point whose reference spelling is `b`: block `k`
/// of it holds coordinate `order[k]`.
pub open spec fn point_to_fast(b: Seq<u8>, order: Seq<usize>) -> Seq<u8> {
    if b[b.len() - 1] >= 64 {
        fast_infinity(order.len() as int)
    } else {
        reorder_reversed(b, order)
    }
}

/// The reference spelling of the point whose fast spelling is `b`:
/// coordinate `k` of it comes from block `place[k]`.
pub open spec fn point_to_reference(b: Seq<u8>, place: Seq<usize>) -> Seq<u8> {
    if b[0] >= 32 {
        reference_infinity(place.len() as int)
    } else {
        reorder_reversed(b, place)
    }
}

/// Whether `place` undoes `order` and `order` undoes `place`.
pub open spec fn inverse_orders(order: Seq<usize>, place: Seq<usize>) -> bool {
    &&& order.len() == place.len()
    &&& order.len() >= 1
    &&& is_chunk_order(order)
    &&& is_chunk_order(place)
    &&& forall|k: int| 0 <= k < place.len() ==> order[(#[trigger] place[k]) as int] == k
    &&& forall|k: int| 0 <= k < order.len() ==> place[(#[trigger] order[k]) as int] == k
}

/// Turning a well-formed reference spelling into the fast one gives a
/// well-formed spelling of the same point.
pub proof fn lemma_point_to_fast(b: Seq<u8>, order: Seq<usize>, place: Seq<usize>)
    requires
        inverse_orders(order, place),
        reference_point_wf(b, order.len() as int),
    ensures
        fast_point_wf(point_to_fast(b, order), order.len() as int),
        fast_point_value(point_to_fast(b, order), place) == reference_point_value(
            b,
            order.len() as int,
        ),
{
    let n = order.len() as int;
    let out = point_to_fast(b, order);
    if b[48 * n - 1] >= 64 {
    } else {
        assert forall|k: int| 0 <= k < n implies be_value(#[trigger] fq_chunk(out, k))
            < fq_modulus() by {
            lemma_reorder_reversed_chunk(b, order, k);
            assert(le_value(fq_chunk(b, order[k] as int)) < fq_modulus());
        }
        lemma_reorder_reversed_chunk(b, order, 0);
        let first = fq_chunk(b, order[0] as int);
        assert(le_value(first) < fq_modulus());
        lemma_canonical_top_byte(first);
        assert(out[0] == fq_chunk(out, 0)[0]);
        assert(fq_chunk(out, 0)[0] == first.reverse()[0]);
        assert(out[0] < 32);
        let got = Seq::new(n as nat, |k: int| be_value(fq_chunk(out, place[k] as int)));
        let want = Seq::new(n as nat, |k: int| le_value(fq_chunk(b, k)));
        assert forall|k: int| 0 <= k < n implies got[k] == want[k] by {
            lemma_reorder_reversed_chunk(b, order, place[k] as int);
        }
        assert(got =~= want);
    }
}

/// Turning a well-formed fast spelling into the reference one gives a
/// well-formed spelling of the same point.
pub proof fn lemma_point_to_reference(b: Seq<u8>, order: Seq<usize>, place: Seq<usize>)
    requires
        inverse_orders(order, place),
        fast_point_wf(b, order.len() as int),
    ensures
        reference_point_wf(point_to_reference(b, place), order.len() as int),
        reference_point_value(point_to_reference(b, place), order.len() as int)
            == fast_point_value(b, place),
{
    let n = order.len() as int;
    let out = point_to_reference(b, place);
    if b[0] >= 32 {
    } else {
        assert forall|k: int| 0 <= k < n implies le_value(#[trigger] fq_chunk(out, k))
            < fq_modulus() by {
            lemma_reorder_reversed_chunk(b, place, k);
            assert(be_value(fq_chunk(b, place[k] as int)) < fq_modulus());
        }
        lemma_reorder_reversed_chunk(b, place, n - 1);
        let last = fq_chunk(out, n - 1);
        lemma_canonical_top_byte(last);
        assert(out[48 * n - 1] == last[47]);
        let got = Seq::new(n as nat, |k: int| le_value(fq_chunk(out, k)));
        let want = Seq::new(n as nat, |k: int| be_value(fq_chunk(b, place[k] as int)));
        assert forall|k: int| 0 <= k < n implies got[k] == want[k] by {
            lemma_reorder_reversed_chunk(b, place, k);
        }
        assert(got =~= want);
    }
}

/// A well-formed reference spelling comes back unchanged from the fast
/// representation.
pub proof fn lemma_point_reference_round_trip(b: Seq<u8>, order: Seq<usize>, place: Seq<usize>)
    requires
        inverse_orders(order, place),
        reference_point_wf(b, order.len() as int),
    ensures
        point_to_reference(point_to_fast(b, order), place) == b,
{
    let n = order.len() as int;
    if b[48 * n - 1] >= 64 {
    } else {
        lemma_point_to_fast(b, order, place);
        lemma_reorder_reversed_inverse(b, order, place);
    }
}

/// A well-formed fast spelling comes back unchanged from the reference
/// representation.
pub proof fn lemma_point_fast_round_trip(b: Seq<u8>, order: Seq<usize>, place: Seq<usize>)
    requires
        inverse_orders(order, place),
        fast_point_wf(b, order.len() as int),
    ensures
        point_to_fast(point_to_reference(b, place), order) == b,
{
    let n = order.len() as int;
    if b[0] >= 32 {
    } else {
        lemma_point_to_reference(b, order, place);
        lemma_reorder_reversed_inverse(b, place, order);
    }
}

/// Two well-formed fast spellings of one point are the same string.
pub proof fn lemma_fast_point_value_injective(
    a: Seq<u8>,
    b: Seq<u8>,
    order: Seq<usize>,
    place: Seq<usize>,
)
    requires
        inverse_orders(order, place),
        fast_point_wf(a, order.len() as int),
        fast_point_wf(b, order.len() as int),
        fast_point_value(a, place) == fast_point_value(b, place),
    ensures
        a == b,
{
    let n = order.len() as int;
    if a[0] >= 32 {
    } else {
        let ca = fast_point_value(a, place)->Affine_0;
        let cb = fast_point_value(b, place)->Affine_0;
        assert forall|i: int| 0 <= i < 48 * n implies a[i] == b[i] by {
            let j = i / 48;
            let k = order[j] as int;
            assert(place[k] == j);
            assert(ca[k] == be_value(fq_chunk(a, j)));
            assert(cb[k] == be_value(fq_chunk(b, j)));
            lemma_le_value_injective(fq_chunk(a, j).reverse(), fq_chunk(b, j).reverse());
            assert(fq_chunk(a, j).reverse()[47 - i % 48] == fq_chunk(b, j).reverse()[47 - i % 48]);
            assert(fq_chunk(a, j)[i % 48] == a[i]);
            assert(fq_chunk(b, j)[i % 48] == b[i]);
        }
        assert(a =~= b);
    }
}

/// Two well-formed reference spellings of one point are the same string.
pub proof fn lemma_reference_point_value_injective(a: Seq<u8>, b: Seq<u8>, coords: int)
    requires
        coords >= 1,
        reference_point_wf(a, coords),
        reference_point_wf(b, coords),
        reference_point_value(a, coords) == reference_point_value(b, coords),
    ensures
        a == b,
{
    if a[48 * coords - 1] >= 64 {
    } else {
        let ca = reference_point_value(a, coords)->Affine_0;
        let cb = reference_point_value(b, coords)->Affine_0;
        assert forall|i: int| 0 <= i < 48 * coords implies a[i] == b[i] by {
            let j = i / 48;
            assert(ca[j] == le_value(fq_chunk(a, j)));
            assert(cb[j] == le_value(fq_chunk(b, j)));
            lemma_le_value_injective(fq_chunk(a, j), fq_chunk(b, j));
            assert(fq_chunk(a, j)[i % 48] == a[i]);
            assert(fq_chunk(b, j)[i % 48] == b[i]);
        }
        assert(a =~= b);
    }
}

/// The reference spelling of the point at infinity.
pub fn reference_infinity_bytes<const N: usize>(coords: usize) -> (out: [u8; N])
    requires
        N == 48 * coords,
        coords >= 1,
    ensures
        out@ == reference_infinity(coords as int),
{
    let mut out: [u8; N] = [0u8; N];
    out[24 * coords] = 1;
    out[N - 1] = 64;
    proof {
        assert(out@ =~= reference_infinity(coords as int));
    }
    out
}

/// The fast spelling of the point at infinity.
pub fn fast_infinity_bytes<const N: usize>(coords: usize) -> (out: [u8; N])
    requires
        N == 48 * coords,
        coords >= 1,
    ensures
        out@ == fast_infinity(coords as int),
{
    let mut out: [u8; N] = [0u8; N];
    out[0] = 64;
    proof {
        assert(out@ =~= fast_infinity(coords as int));
    }
    out
}

/// Whether `b` is a well-formed reference spelling of a point.
pub fn is_reference_point<const N: usize>(b: &[u8; N], coords: usize) -> (r: bool)
    requires
        N == 48 * coords,
        coords >= 1,
    ensures
        r == reference_point_wf(b@, coords as int),
{
    if b[N - 1] >= 64 {
        let infinity: [u8; N] = reference_infinity_bytes::<N>(coords);
        bytes_equal(b.as_slice(), infinity.as_slice())
    } else {
        is_canonical_le(b.as_slice(), coords)
    }
}

/// Whether all `n` blocks of `a` hold canonical base-field elements, most
/// significant byte first.
pub fn is_canonical_be(a: &[u8], n: usize) -> (r: bool)
    requires
        a@.len() == 48 * n,
    ensures
        r == canonical_be(a@, n as int),
{
    let limbs: [u64; 6] = fq_modulus_limbs();
    let m: [u8; 48] = limbs_to_le_bytes::<6, 48>(&limbs);
    proof {
        lemma_le_bytes_of_limbs_value(limbs@);
    }
    let total: usize = a.len();
    let mut k: usize = 0;
    while k < n
        invariant
            k <= n,
            a@.len() == 48 * n,
            total == a@.len(),
            le_value(m@) == fq_modulus(),
            canonical_be(a@, k as int),
        decreases n - k,
    {
        let mut block: [u8; 48] = [0u8; 48];
        let mut i: usize = 0;
        while i < 48
            invariant
                i <= 48,
                k < n,
                a@.len() == 48 * n,
                total == a@.len(),
                forall|j: int| 0 <= j < i ==> block@[j] == a@[48 * k + 47 - j],
            decreases 48 - i,
        {
            block[i] = a[48 * k + (47 - i)];
            i = i + 1;
        }
        proof {
            assert(block@ =~= fq_chunk(a@, k as int).reverse());
            assert(block@.subrange(0, 48) =~= block@);
        }
        if !le_less_than(block.as_slice(), 0, m.as_slice()) {
            return false;
        }
        k = k + 1;
    }
    true
}

/// Whether `b` is a well-formed fast spelling of a point.
pub fn is_fast_point<const N: usize>(b: &[u8; N], coords: usize) -> (r: bool)
    requires
        N == 48 * coords,
        coords >= 1,
    ensures
        r == fast_point_wf(b@, coords as int),
{
    if b[0] >= 32 {
        let infinity: [u8; N] = fast_infinity_bytes::<N>(coords);
        bytes_equal(b.as_slice(), infinity.as_slice())
    } else {
        is_canonical_be(b.as_slice(), coords)
    }
}

/// The fast spelling of the point whose reference spelling is `b`.
pub fn point_to_fast_bytes<const N: usize>(b: &[u8; N], order: &[usize]) -> (out: [u8; N])
    requires
        is_chunk_order(order@),
        order@.len() >= 1,
        N == 48 * order@.len(),
    ensures
        out@ == point_to_fast(b@, order@),
{
    if b[N - 1] >= 64 {
        fast_infinity_bytes::<N>(order.len())
    } else {
        reorder_reversed_bytes::<N>(b, order)
    }
}

/// The reference spelling of the point whose fast spelling is `b`.
pub fn point_to_reference_bytes<const N: usize>(b: &[u8; N], place: &[usize]) -> (out: [u8; N])
    requires
        is_chunk_order(place@),
        place@.len() >= 1,
        N == 48 * place@.len(),
    ensures
        out@ == point_to_reference(b@, place@),
{
    if b[0] >= 32 {
        reference_infinity_bytes::<N>(place.len())
    } else {
        reorder_reversed_bytes::<N>(b, place)
    }
}

} // verus!
