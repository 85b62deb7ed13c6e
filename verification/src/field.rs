//! The two prime fields of BLS12-381 and what it means for a byte string to
//! hold canonical residues.

use crate::encoding::{
    be_value, fq_chunk, le_less_than, le_value, lemma_le_bytes_of_limbs_value,
    lemma_le_value_take_step, lemma_pow256_8, lemma_pow256_adds, limbs_to_le_bytes, limbs_value,
    pow256,
};
use vstd::prelude::*;

verus! {

/// The modulus of the base field.
pub open spec fn fq_modulus() -> nat {
    0x1a0111ea397fe69a4b1ba7b6434bacd764774b84f38512bf6730d2a0f6b0f6241eabfffeb153ffffb9feffffffffaaabnat
}

/// The modulus of the scalar field, which is the order of both groups.
pub open spec fn fr_modulus() -> nat {
    0x73eda753299d7d483339d80809a1d80553bda402fffe5bfeffffffff00000001nat
}

proof fn lemma_limbs_value_take_step(s: Seq<u64>, k: int)
    requires
        0 <= k < s.len(),
    ensures
        limbs_value(s.take(k + 1)) == limbs_value(s.take(k)) + (s[k] as nat) * pow256(
            (8 * k) as nat,
        ),
{
    assert(s.take(k + 1).drop_last() =~= s.take(k));
}

proof fn lemma_limb_weights()
    ensures
        pow256(0) == 1,
        pow256(8) == 0x1_0000_0000_0000_0000,
        pow256(16) == 0x1_0000_0000_0000_0000_0000_0000_0000_0000,
        pow256(24) == 0x1_0000_0000_0000_0000_0000_0000_0000_0000_0000_0000_0000_0000nat,
        pow256(32)
            == 0x1_0000_0000_0000_0000_0000_0000_0000_0000_0000_0000_0000_0000_0000_0000_0000_0000nat,
        pow256(40)
            == 0x1_0000_0000_0000_0000_0000_0000_0000_0000_0000_0000_0000_0000_0000_0000_0000_0000_0000_0000_0000_0000nat,
{
    lemma_pow256_8();
    lemma_pow256_adds(8, 8);
    lemma_pow256_adds(16, 8);
    lemma_pow256_adds(24, 8);
    lemma_pow256_adds(32, 8);
}

/// The base-field modulus as six limbs, least significant first.
pub fn fq_modulus_limbs() -> (m: [u64; 6])
    ensures
        limbs_value(m@) == fq_modulus(),
{
    let m: [u64; 6] = [
        0xb9fe_ffff_ffff_aaab,
        0x1eab_fffe_b153_ffff,
        0x6730_d2a0_f6b0_f624,
        0x6477_4b84_f385_12bf,
        0x4b1b_a7b6_434b_acd7,
        0x1a01_11ea_397f_e69a,
    ];
    proof {
        let s = m@;
        lemma_limb_weights();
        assert(s.take(0) =~= Seq::<u64>::empty());
        lemma_limbs_value_take_step(s, 0);
        lemma_limbs_value_take_step(s, 1);
        lemma_limbs_value_take_step(s, 2);
        lemma_limbs_value_take_step(s, 3);
        lemma_limbs_value_take_step(s, 4);
        lemma_limbs_value_take_step(s, 5);
        assert(s.take(6) =~= s);
    }
    m
}

/// The scalar-field modulus as four limbs, least significant first.
pub fn fr_modulus_limbs() -> (m: [u64; 4])
    ensures
        limbs_value(m@) == fr_modulus(),
{
    let m: [u64; 4] = [
        0xffff_ffff_0000_0001,
        0x53bd_a402_fffe_5bfe,
        0x3339_d808_09a1_d805,
        0x73ed_a753_299d_7d48,
    ];
    proof {
        let s = m@;
        lemma_limb_weights();
        assert(s.take(0) =~= Seq::<u64>::empty());
        lemma_limbs_value_take_step(s, 0);
        lemma_limbs_value_take_step(s, 1);
        lemma_limbs_value_take_step(s, 2);
        lemma_limbs_value_take_step(s, 3);
        assert(s.take(4) =~= s);
    }
    m
}

/// The negative of a residue of the base field.
pub open spec fn fq_neg(y: nat) -> nat {
    if y == 0 {
        0
    } else {
        (fq_modulus() - y) as nat
    }
}

/// Whether each of the first `n` 48-byte blocks of `s`, read least
/// significant byte first, is below the base-field modulus.
pub open spec fn canonical_le(s: Seq<u8>, n: int) -> bool {
    forall|k: int| 0 <= k < n ==> le_value(#[trigger] fq_chunk(s, k)) < fq_modulus()
}

/// Whether each of the first `n` 48-byte blocks of `s`, read most
/// significant byte first, is below the base-field modulus.
pub open spec fn canonical_be(s: Seq<u8>, n: int) -> bool {
    forall|k: int| 0 <= k < n ==> be_value(#[trigger] fq_chunk(s, k)) < fq_modulus()
}

/// A canonical base-field element leaves the top three bits of its most
/// significant byte clear.
pub proof fn lemma_canonical_top_byte(s: Seq<u8>)
    requires
        s.len() == 48,
        le_value(s) < fq_modulus(),
    ensures
        s[47] < 32,
{
    assert(s.take(48) =~= s);
    lemma_le_value_take_step(s, 47);
    lemma_limb_weights();
    lemma_pow256_adds(40, 7);
    assert(pow256(7) == 0x1_00_0000_0000_0000) by {
        reveal_with_fuel(pow256, 8);
    }
    if s[47] >= 32 {
        assert((s[47] as nat) * pow256(47) >= 32 * pow256(47)) by (nonlinear_arith)
            requires
                s[47] >= 32,
        ;
    }
}

/// Whether all `n` blocks of `a` hold canonical base-field elements, least
/// significant byte first.
pub fn is_canonical_le(a: &[u8], n: usize) -> (r: bool)
    requires
        a@.len() == 48 * n,
    ensures
        r == canonical_le(a@, n as int),
{
    let limbs: [u64; 6] = fq_modulus_limbs();
    let m: [u8; 48] = limbs_to_le_bytes::<6, 48>(&limbs);
    proof {
        lemma_le_bytes_of_limbs_value(limbs@);
    }
    let total: usize = a.len();
    let mut k: usize = 0;
    while k < n
        invariant
            k <= n,
            a@.len() == 48 * n,
            total == a@.len(),
            le_value(m@) == fq_modulus(),
            canonical_le(a@, k as int),
        decreases n - k,
    {
        if !le_less_than(a, 48 * k, m.as_slice()) {
            proof {
                assert(fq_chunk(a@, k as int) == a@.subrange(48 * k, 48 * k + 48));
            }
            return false;
        }
        proof {
            assert(fq_chunk(a@, k as int) == a@.subrange(48 * k, 48 * k + 48));
        }
        k = k + 1;
    }
    true
}

} // verus!
