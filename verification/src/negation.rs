//! Negating a point of the second group in the fast representation.
//!
//! The negative of a finite point has the same `x` and, for each of the two
//! parts of `y`, the modulus less that part. Infinity is its own negative.

use crate::encoding::{
    be_value, fq_chunk, le_value, lemma_le_bytes_of_limbs_value, lemma_le_value_bound,
    lemma_le_value_digit, lemma_le_value_take_step, lemma_le_value_zero, limbs_to_le_bytes,
    pow256,
};
use crate::conversions::{g2_to_fast, lemma_g2_order};
use crate::fast::{g2_order, BlstG2Affine};
use crate::field::{fq_modulus, fq_modulus_limbs, fq_neg};
use crate::point::{
    fast_point_value, g2_neg_value, lemma_fast_point_value_injective, lemma_point_to_fast,
};
use crate::reference::G2Affine;
use vstd::prelude::*;

verus! {

/// The difference of two numbers of 48 bytes, least significant byte first,
/// where the second is not the larger.
pub fn le_subtract(m: &[u8; 48], a: &[u8; 48]) -> (out: [u8; 48])
    requires
        le_value(a@) <= le_value(m@),
    ensures
        le_value(out@) + le_value(a@) == le_value(m@),
{
    let mut out: [u8; 48] = [0u8; 48];
    let mut borrow: u16 = 0;
    let mut i: usize = 0;
    proof {
        assert(out@.take(0) =~= Seq::<u8>::empty());
        assert(a@.take(0) =~= Seq::<u8>::empty());
        assert(m@.take(0) =~= Seq::<u8>::empty());
        assert(pow256(0) == 1);
    }
    while i < 48
        invariant
            i <= 48,
            borrow <= 1,
            le_value(out@.take(i as int)) + le_value(a@.take(i as int)) == le_value(
                m@.take(i as int),
            ) + borrow * pow256(i as nat),
        decreases 48 - i,
    {
        let ghost before = out@;
        let x: u16 = m[i] as u16 + 256 - a[i] as u16 - borrow;
        let digit: u8 = (x % 256) as u8;
        let next: u16 = if x < 256 {
            1
        } else {
            0
        };
        out[i] = digit;
        proof {
            let k = i as int;
            assert(out@.take(k) =~= before.take(k));
            lemma_le_value_take_step(out@, k);
            lemma_le_value_take_step(a@, k);
            lemma_le_value_take_step(m@, k);
            assert(digit + a@[k] + borrow == m@[k] + 256 * next);
            assert(pow256((k + 1) as nat) == 256 * pow256(k as nat));
            assert((digit as nat) * pow256(k as nat) + (a@[k] as nat) * pow256(k as nat) + borrow
                * pow256(k as nat) == (m@[k] as nat) * pow256(k as nat) + next * pow256(
                (k + 1) as nat,
            )) by (nonlinear_arith)
                requires
                    digit + a@[k] + borrow == m@[k] + 256 * next,
                    pow256((k + 1) as nat) == 256 * pow256(k as nat),
            ;
        }
        borrow = next;
        i = i + 1;
    }
    proof {
        assert(out@.take(48) =~= out@);
        assert(a@.take(48) =~= a@);
        assert(m@.take(48) =~= m@);
        lemma_le_value_bound(out@);
        if borrow == 1 {
            assert(1 * pow256(48) == pow256(48)) by (nonlinear_arith);
        } else {
            assert(0 * pow256(48) == 0) by (nonlinear_arith);
        }
    }
    out
}

/// Whether every byte of `a` is zero, which is whether `a` spells zero.
pub fn is_zero(a: &[u8; 48]) -> (r: bool)
    ensures
        r == (le_value(a@) == 0),
{
    let mut i: usize = 0;
    while i < 48
        invariant
            i <= 48,
            forall|j: int| 0 <= j < i ==> a@[j] == 0,
        decreases 48 - i,
    {
        if a[i] != 0 {
            proof {
                lemma_le_value_digit(a@, i as int);
                if le_value(a@) == 0 {
                    vstd::arithmetic::div_mod::lemma_div_basics(pow256(i as nat) as int);
                    crate::encoding::lemma_pow256_positive(i as nat);
                }
            }
            return false;
        }
        i = i + 1;
    }
    proof {
        lemma_le_value_zero(a@);
    }
    true
}

/// The string `bytes` with the residue in its block `block`, written most
/// significant byte first, replaced by its negative.
pub fn negate_block<const N: usize>(bytes: &[u8; N], block: usize) -> (out: [u8; N])
    requires
        48 * block + 48 <= N,
        be_value(fq_chunk(bytes@, block as int)) < fq_modulus(),
    ensures
        forall|i: int|
            0 <= i < N && !(48 * block <= i < 48 * block + 48) ==> out@[i] == bytes@[i],
        be_value(fq_chunk(out@, block as int)) == fq_neg(
            be_value(fq_chunk(bytes@, block as int)),
        ),
{
    let mut reversed: [u8; 48] = [0u8; 48];
    let mut i: usize = 0;
    while i < 48
        invariant
            i <= 48,
            48 * block + 48 <= N,
            forall|j: int| 0 <= j < i ==> reversed@[j] == bytes@[48 * block + 47 - j],
        decreases 48 - i,
    {
        reversed[i] = bytes[48 * block + (47 - i)];
        i = i + 1;
    }
    proof {
        assert(reversed@ =~= fq_chunk(bytes@, block as int).reverse());
    }
    if is_zero(&reversed) {
        return *bytes;
    }
    let limbs: [u64; 6] = fq_modulus_limbs();
    let modulus: [u8; 48] = limbs_to_le_bytes::<6, 48>(&limbs);
    proof {
        lemma_le_bytes_of_limbs_value(limbs@);
    }
    let negative: [u8; 48] = le_subtract(&modulus, &reversed);
    let mut out: [u8; N] = *bytes;
    let mut i: usize = 0;
    while i < 48
        invariant
            i <= 48,
            48 * block + 48 <= N,
            forall|j: int|
                0 <= j < N && !(48 * block <= j < 48 * block + i) ==> out@[j] == bytes@[j],
            forall|j: int|
                48 * block <= j < 48 * block + i ==> out@[j] == negative@[48 * block + 47 - j],
        decreases 48 - i,
    {
        out[48 * block + i] = negative[47 - i];
        i = i + 1;
    }
    proof {
        assert(fq_chunk(out@, block as int).reverse() =~= negative@);
    }
    out
}

/// The negative of a point of the second group.
pub fn blst_g2_neg(q: &BlstG2Affine) -> (r: BlstG2Affine)
    ensures
        r.wf(),
        r.value() == g2_neg_value(q.value()),
{
    proof {
        use_type_invariant(q);
    }
    if q.is_infinity() {
        return *q;
    }
    let bytes: [u8; 192] = q.to_bytes();
    proof {
        assert(be_value(fq_chunk(bytes@, 2)) < fq_modulus());
        assert(be_value(fq_chunk(bytes@, 3)) < fq_modulus());
    }
    let half: [u8; 192] = negate_block::<192>(&bytes, 2);
    proof {
        assert(fq_chunk(half@, 3) =~= fq_chunk(bytes@, 3));
    }
    let out: [u8; 192] = negate_block::<192>(&half, 3);
    proof {
        assert(fq_chunk(out@, 0) =~= fq_chunk(bytes@, 0));
        assert(fq_chunk(out@, 1) =~= fq_chunk(bytes@, 1));
        assert(fq_chunk(out@, 2) =~= fq_chunk(half@, 2));
        assert(out@[0] == bytes@[0]);
        assert forall|k: int| 0 <= k < 4 implies be_value(#[trigger] fq_chunk(out@, k))
            < fq_modulus() by {
            assert(be_value(fq_chunk(bytes@, k)) < fq_modulus());
        }
        let got = fast_point_value(out@, g2_order())->Affine_0;
        let old_coordinates = fast_point_value(bytes@, g2_order())->Affine_0;
        assert(got =~= seq![
            old_coordinates[0],
            old_coordinates[1],
            fq_neg(old_coordinates[2]),
            fq_neg(old_coordinates[3]),
        ]);
    }
    BlstG2Affine::from_wf_bytes(out)
}

/// Negating before or after going over to the fast representation comes to
/// the same: if `r` is the negative of the reference point `q` and `f` is
/// the negative of `q` in the fast representation, then `r` in the fast
/// representation is `f`.
pub proof fn lemma_negation_agrees(q: G2Affine, r: G2Affine, f: BlstG2Affine)
    requires
        q.wf(),
        r.wf(),
        f.wf(),
        r.value() == g2_neg_value(q.value()),
        fast_point_value(f@, g2_order()) == g2_neg_value(
            fast_point_value(g2_to_fast(q@), g2_order()),
        ),
    ensures
        g2_to_fast(r@) == f@,
{
    lemma_g2_order();
    lemma_point_to_fast(q@, g2_order(), g2_order());
    lemma_point_to_fast(r@, g2_order(), g2_order());
    lemma_fast_point_value_injective(g2_to_fast(r@), f@, g2_order(), g2_order());
}

} // verus!
