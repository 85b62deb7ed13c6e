//! Numbers written as byte strings.
//!
//! Field elements cross the boundary of this crate as fixed-width byte
//! strings, least significant byte first in one convention and most
//! significant byte first in the other. This module says which number a
//! byte string spells and proves the executable helpers that compare such
//! strings, turn limbs into bytes and back, and reverse and reorder blocks.

use vstd::prelude::*;

verus! {

/// 256 raised to the power `n`.
pub open spec fn pow256(n: nat) -> nat
    decreases n,
{
    if n == 0 {
        1
    } else {
        256 * pow256((n - 1) as nat)
    }
}

/// The number that `s` spells when its first byte is the least significant.
pub open spec fn le_value(s: Seq<u8>) -> nat
    decreases s.len(),
{
    if s.len() == 0 {
        0
    } else {
        le_value(s.drop_last()) + (s.last() as nat) * pow256((s.len() - 1) as nat)
    }
}

/// The number that `s` spells when its first byte is the most significant.
pub open spec fn be_value(s: Seq<u8>) -> nat {
    le_value(s.reverse())
}

/// `pow256` is never zero.
pub proof fn lemma_pow256_positive(n: nat)
    ensures
        pow256(n) >= 1,
    decreases n,
{
    if n > 0 {
        lemma_pow256_positive((n - 1) as nat);
    }
}

/// A string of `n` bytes spells a number below `256^n`.
pub proof fn lemma_le_value_bound(s: Seq<u8>)
    ensures
        le_value(s) < pow256(s.len()),
    decreases s.len(),
{
    if s.len() == 0 {
    } else {
        let n = (s.len() - 1) as nat;
        lemma_le_value_bound(s.drop_last());
        lemma_pow256_positive(n);
        assert((s.last() as nat) * pow256(n) <= 255 * pow256(n)) by (nonlinear_arith)
            requires
                s.last() as nat <= 255,
        ;
    }
}

/// Lengthening a prefix by one byte adds that byte at its weight.
pub proof fn lemma_le_value_take_step(s: Seq<u8>, k: int)
    requires
        0 <= k < s.len(),
    ensures
        le_value(s.take(k + 1)) == le_value(s.take(k)) + (s[k] as nat) * pow256(k as nat),
{
    assert(s.take(k + 1).drop_last() =~= s.take(k));
}

/// A byte string that is zero everywhere spells zero.
pub proof fn lemma_le_value_zero(s: Seq<u8>)
    requires
        forall|i: int| 0 <= i < s.len() ==> s[i] == 0,
    ensures
        le_value(s) == 0,
    decreases s.len(),
{
    if s.len() > 0 {
        lemma_le_value_zero(s.drop_last());
    }
}

/// A larger exponent gives no smaller power.
pub proof fn lemma_pow256_monotonic(a: nat, b: nat)
    requires
        a <= b,
    ensures
        pow256(a) <= pow256(b),
    decreases b,
{
    if a < b {
        lemma_pow256_monotonic(a, (b - 1) as nat);
    }
}

/// Powers of 256 multiply as their exponents add.
pub proof fn lemma_pow256_adds(a: nat, b: nat)
    ensures
        pow256(a + b) == pow256(a) * pow256(b),
    decreases b,
{
    if b == 0 {
        assert(pow256(a) * 1 == pow256(a)) by (nonlinear_arith);
    } else {
        lemma_pow256_adds(a, (b - 1) as nat);
        assert(pow256(a + b) == 256 * pow256((a + b - 1) as nat));
        assert(256 * (pow256(a) * pow256((b - 1) as nat)) == pow256(a) * (256 * pow256(
            (b - 1) as nat,
        ))) by (nonlinear_arith);
    }
}

/// The number spelled by two strings set end to end.
pub proof fn lemma_le_value_append(a: Seq<u8>, b: Seq<u8>)
    ensures
        le_value(a + b) == le_value(a) + pow256(a.len()) * le_value(b),
    decreases b.len(),
{
    if b.len() == 0 {
        assert(a + b =~= a);
        assert(pow256(a.len()) * 0 == 0) by (nonlinear_arith);
    } else {
        let init = b.drop_last();
        let last = b.last() as nat;
        assert((a + b).drop_last() =~= a + init);
        lemma_le_value_append(a, init);
        lemma_pow256_adds(a.len(), init.len());
        assert(pow256(a.len()) * le_value(init) + last * (pow256(a.len()) * pow256(init.len()))
            == pow256(a.len()) * (le_value(init) + last * pow256(init.len())))
            by (nonlinear_arith);
    }
}

/// A single byte spells itself.
pub proof fn lemma_le_value_single(x: u8)
    ensures
        le_value(seq![x]) == x as nat,
{
    let s = seq![x];
    assert(s.len() == 1);
    assert(s.last() == x);
    assert(s.drop_last() =~= Seq::<u8>::empty());
    assert(le_value(s.drop_last()) == 0);
    assert(pow256(0) == 1);
    assert(le_value(s) == le_value(s.drop_last()) + (s.last() as nat) * pow256(0));
}

/// Each byte of a string is the matching base-256 digit of its number.
pub proof fn lemma_le_value_digit(s: Seq<u8>, k: int)
    requires
        0 <= k < s.len(),
    ensures
        (le_value(s) / pow256(k as nat)) % 256 == s[k],
{
    let low = s.take(k);
    let high = s.skip(k);
    let rest = high.drop_first();
    assert(s =~= low + high);
    assert(high =~= seq![s[k]] + rest);
    lemma_le_value_append(low, high);
    lemma_le_value_append(seq![s[k]], rest);
    lemma_le_value_bound(low);
    lemma_pow256_positive(k as nat);
    lemma_le_value_single(s[k]);
    assert(pow256(1) == 256) by {
        reveal_with_fuel(pow256, 2);
    }
    let d = pow256(k as nat) as int;
    let q = le_value(high) as int;
    let r = le_value(low) as int;
    assert(le_value(s) as int == q * d + r) by (nonlinear_arith)
        requires
            le_value(s) == le_value(low) + pow256(k as nat) * le_value(high),
            d == pow256(k as nat),
            q == le_value(high),
            r == le_value(low),
    ;
    vstd::arithmetic::div_mod::lemma_fundamental_div_mod_converse(le_value(s) as int, d, q, r);
    assert(q == le_value(rest) * 256 + s[k]) by (nonlinear_arith)
        requires
            q == le_value(seq![s[k]]) + pow256(1) * le_value(rest),
            le_value(seq![s[k]]) == s[k] as nat,
            pow256(1) == 256,
    ;
    vstd::arithmetic::div_mod::lemma_fundamental_div_mod_converse(
        q,
        256,
        le_value(rest) as int,
        s[k] as int,
    );
}

/// The `n` lowest base-256 digits of `v`, least significant first.
pub open spec fn le_digits(v: nat, n: nat) -> Seq<u8> {
    Seq::new(n, |k: int| ((v / pow256(k as nat)) % 256) as u8)
}

/// The `n` lowest digits of `v` spell `v` modulo `256^n`.
pub proof fn lemma_le_digits_value(v: nat, n: nat)
    ensures
        le_value(le_digits(v, n)) == v % pow256(n),
    decreases n,
{
    if n == 0 {
    } else {
        let m = (n - 1) as nat;
        assert(le_digits(v, n).drop_last() =~= le_digits(v, m));
        lemma_le_digits_value(v, m);
        lemma_pow256_positive(m);
        vstd::arithmetic::div_mod::lemma_breakdown(v as int, pow256(m) as int, 256);
        assert(pow256(m) * 256 == 256 * pow256(m)) by (nonlinear_arith);
        assert(((v / pow256(m)) % 256) * pow256(m) == pow256(m) * ((v / pow256(m)) % 256))
            by (nonlinear_arith);
    }
}

/// Strings of one length that spell the same number are the same string.
pub proof fn lemma_le_value_injective(a: Seq<u8>, b: Seq<u8>)
    requires
        a.len() == b.len(),
        le_value(a) == le_value(b),
    ensures
        a == b,
{
    assert forall|k: int| 0 <= k < a.len() implies a[k] == b[k] by {
        lemma_le_value_digit(a, k);
        lemma_le_value_digit(b, k);
    }
    assert(a =~= b);
}

/// Whether the bytes of `a` from `start` on, as many as `m` has, spell a
/// smaller number than `m` does, both least significant byte first.
pub fn le_less_than(a: &[u8], start: usize, m: &[u8]) -> (r: bool)
    requires
        start + m@.len() <= a@.len(),
    ensures
        r == (le_value(a@.subrange(start as int, start + m@.len())) < le_value(m@)),
{
    let n: usize = m.len();
    let total: usize = a.len();
    let ghost window = a@.subrange(start as int, start + n);
    let mut i: usize = n;
    proof {
        assert(window.take(n as int) =~= window);
        assert(m@.take(n as int) =~= m@);
    }
    while i > 0
        invariant
            i <= n,
            n == m@.len(),
            start + n <= total,
            total == a@.len(),
            window == a@.subrange(start as int, start + n),
            (le_value(window) < le_value(m@)) == (le_value(window.take(i as int)) < le_value(
                m@.take(i as int),
            )),
        decreases i,
    {
        let x: u8 = a[start + (i - 1)];
        let y: u8 = m[i - 1];
        proof {
            let k = (i - 1) as int;
            assert(window[k] == x);
            lemma_le_value_take_step(window, k);
            lemma_le_value_take_step(m@, k);
            lemma_le_value_bound(window.take(k));
            lemma_le_value_bound(m@.take(k));
            if x < y {
                assert((x as nat) * pow256(k as nat) + pow256(k as nat) <= (y as nat) * pow256(
                    k as nat,
                )) by (nonlinear_arith)
                    requires
                        (x as nat) + 1 <= (y as nat),
                ;
            }
            if x > y {
                assert((y as nat) * pow256(k as nat) + pow256(k as nat) <= (x as nat) * pow256(
                    k as nat,
                )) by (nonlinear_arith)
                    requires
                        (y as nat) + 1 <= (x as nat),
                ;
            }
        }
        if x < y {
            return true;
        }
        if x > y {
            return false;
        }
        i = i - 1;
    }
    proof {
        assert(window.take(0) =~= Seq::<u8>::empty());
        assert(m@.take(0) =~= Seq::<u8>::empty());
    }
    false
}

/// The number that the 64-bit limbs `s` spell, least significant limb first.
pub open spec fn limbs_value(s: Seq<u64>) -> nat
    decreases s.len(),
{
    if s.len() == 0 {
        0
    } else {
        limbs_value(s.drop_last()) + (s.last() as nat) * pow256((8 * (s.len() - 1)) as nat)
    }
}

/// The bytes of the limbs `s`: eight for each limb, least significant byte of
/// the least significant limb first.
pub open spec fn le_bytes_of_limbs(s: Seq<u64>) -> Seq<u8> {
    Seq::new(8 * s.len(), |j: int| le_digits(s[j / 8] as nat, 8)[j % 8])
}

/// The limbs that the bytes `b` hold, eight bytes to a limb.
pub open spec fn limbs_of_le_bytes(b: Seq<u8>) -> Seq<u64> {
    Seq::new(b.len() / 8, |i: int| le_value(b.subrange(8 * i, 8 * i + 8)) as u64)
}

/// Eight bytes reach exactly as far as a 64-bit limb.
pub proof fn lemma_pow256_8()
    ensures
        pow256(8) == 0x1_0000_0000_0000_0000,
{
    reveal_with_fuel(pow256, 9);
}

/// The eight digits of a limb spell the limb.
pub proof fn lemma_limb_digits_value(x: u64)
    ensures
        le_value(le_digits(x as nat, 8)) == x,
{
    lemma_le_digits_value(x as nat, 8);
    lemma_pow256_8();
}

/// Limb `i` of `s` fills bytes `8i` to `8i + 7` of its byte string.
pub proof fn lemma_le_bytes_of_limbs_chunk(s: Seq<u64>, i: int)
    requires
        0 <= i < s.len(),
    ensures
        le_bytes_of_limbs(s).subrange(8 * i, 8 * i + 8) == le_digits(s[i] as nat, 8),
{
    let chunk = le_bytes_of_limbs(s).subrange(8 * i, 8 * i + 8);
    assert forall|k: int| 0 <= k < 8 implies chunk[k] == le_digits(s[i] as nat, 8)[k] by {
        assert((8 * i + k) / 8 == i);
        assert((8 * i + k) % 8 == k);
    }
    assert(chunk =~= le_digits(s[i] as nat, 8));
}

/// Writing limbs as bytes and reading them back gives the limbs.
pub proof fn lemma_limbs_round_trip(s: Seq<u64>)
    ensures
        limbs_of_le_bytes(le_bytes_of_limbs(s)) == s,
{
    let b = le_bytes_of_limbs(s);
    assert((8 * s.len()) / 8 == s.len());
    assert forall|i: int| 0 <= i < s.len() implies limbs_of_le_bytes(b)[i] == s[i] by {
        lemma_le_bytes_of_limbs_chunk(s, i);
        lemma_limb_digits_value(s[i]);
    }
    assert(limbs_of_le_bytes(b) =~= s);
}

/// Reading bytes as limbs and writing them back gives the bytes, when the
/// bytes fill whole limbs.
pub proof fn lemma_le_bytes_round_trip(b: Seq<u8>)
    requires
        b.len() % 8 == 0,
    ensures
        le_bytes_of_limbs(limbs_of_le_bytes(b)) == b,
{
    let s = limbs_of_le_bytes(b);
    assert(8 * (b.len() / 8) == b.len());
    assert forall|j: int| 0 <= j < b.len() implies le_bytes_of_limbs(s)[j] == b[j] by {
        let i = j / 8;
        let k = j % 8;
        let chunk = b.subrange(8 * i, 8 * i + 8);
        lemma_le_value_bound(chunk);
        lemma_pow256_8();
        lemma_le_value_digit(chunk, k);
    }
    assert(le_bytes_of_limbs(s) =~= b);
}

/// Limbs and their bytes spell the same number.
pub proof fn lemma_le_bytes_of_limbs_value(s: Seq<u64>)
    ensures
        le_value(le_bytes_of_limbs(s)) == limbs_value(s),
    decreases s.len(),
{
    if s.len() == 0 {
        assert(le_bytes_of_limbs(s) =~= Seq::<u8>::empty());
    } else {
        let init = s.drop_last();
        let n = init.len() as int;
        lemma_le_bytes_of_limbs_value(init);
        lemma_le_bytes_of_limbs_chunk(s, n);
        lemma_limb_digits_value(s.last());
        assert forall|j: int| 0 <= j < 8 * n implies le_bytes_of_limbs(s)[j] == le_bytes_of_limbs(
            init,
        )[j] by {
            assert(0 <= j / 8 < n);
        }
        assert(le_bytes_of_limbs(s) =~= le_bytes_of_limbs(init) + le_digits(s.last() as nat, 8));
        lemma_le_value_append(le_bytes_of_limbs(init), le_digits(s.last() as nat, 8));
        assert(pow256((8 * n) as nat) * (s.last() as nat) == (s.last() as nat) * pow256(
            (8 * n) as nat,
        )) by (nonlinear_arith);
    }
}

/// Writes limbs out as bytes, least significant first.
pub fn limbs_to_le_bytes<const N: usize, const M: usize>(limbs: &[u64; N]) -> (out: [u8; M])
    requires
        M == 8 * N,
    ensures
        out@ == le_bytes_of_limbs(limbs@),
{
    let mut out: [u8; M] = [0u8; M];
    let mut i: usize = 0;
    while i < N
        invariant
            i <= N,
            M == 8 * N,
            forall|j: int| 0 <= j < 8 * i ==> out@[j] == le_bytes_of_limbs(limbs@)[j],
        decreases N - i,
    {
        let l: u64 = limbs[i];
        let mut rest: u64 = l;
        let mut k: usize = 0;
        proof {
            assert(pow256(0) == 1);
        }
        while k < 8
            invariant
                k <= 8,
                i < N,
                M == 8 * N,
                l == limbs@[i as int],
                rest == l as nat / pow256(k as nat),
                forall|j: int| 0 <= j < 8 * i + k ==> out@[j] == le_bytes_of_limbs(limbs@)[j],
            decreases 8 - k,
        {
            let b: u8 = (rest % 256) as u8;
            proof {
                let j = 8 * i + k;
                assert(j / 8 == i as int);
                assert(j % 8 == k as int);
                lemma_pow256_positive(k as nat);
                vstd::arithmetic::div_mod::lemma_div_denominator(
                    l as int,
                    pow256(k as nat) as int,
                    256,
                );
                assert(pow256((k + 1) as nat) == pow256(k as nat) * 256) by (nonlinear_arith)
                    requires
                        pow256((k + 1) as nat) == 256 * pow256(k as nat),
                ;
            }
            out[8 * i + k] = b;
            rest = rest / 256;
            k = k + 1;
        }
        i = i + 1;
    }
    proof {
        assert(out@ =~= le_bytes_of_limbs(limbs@));
    }
    out
}

/// Reads bytes as limbs, least significant first.
pub fn le_bytes_to_limbs<const M: usize, const N: usize>(bytes: &[u8; M]) -> (out: [u64; N])
    requires
        M == 8 * N,
    ensures
        out@ == limbs_of_le_bytes(bytes@),
{
    let mut out: [u64; N] = [0u64; N];
    let mut i: usize = 0;
    while i < N
        invariant
            i <= N,
            M == 8 * N,
            forall|j: int| 0 <= j < i ==> out@[j] == limbs_of_le_bytes(bytes@)[j],
        decreases N - i,
    {
        let ghost chunk = bytes@.subrange(8 * i, 8 * i + 8);
        let mut acc: u64 = 0;
        let mut k: usize = 8;
        proof {
            assert(chunk.skip(8) =~= Seq::<u8>::empty());
        }
        while k > 0
            invariant
                k <= 8,
                i < N,
                M == 8 * N,
                chunk == bytes@.subrange(8 * i, 8 * i + 8),
                acc == le_value(chunk.skip(k as int)),
            decreases k,
        {
            let b: u8 = bytes[8 * i + (k - 1)];
            proof {
                let tail = chunk.skip(k as int);
                assert(chunk.skip(k - 1) =~= seq![b] + tail);
                lemma_le_value_append(seq![b], tail);
                lemma_le_value_single(b);
                lemma_le_value_bound(tail);
                lemma_le_value_bound(chunk.skip(k - 1));
                reveal_with_fuel(pow256, 9);
                assert(pow256(1) * le_value(tail) == 256 * le_value(tail)) by (nonlinear_arith)
                    requires
                        pow256(1) == 256,
                ;
                assert(pow256((8 - k) as nat) <= pow256(7)) by {
                    lemma_pow256_monotonic((8 - k) as nat, 7);
                }
            }
            acc = acc * 256 + b as u64;
            k = k - 1;
        }
        proof {
            assert(chunk.skip(0) =~= chunk);
        }
        out[i] = acc;
        i = i + 1;
    }
    proof {
        assert(M / 8 == N);
        assert(out@ =~= limbs_of_le_bytes(bytes@));
    }
    out
}

/// The `k`-th block of 48 bytes of `s`: room for one base-field element.
pub open spec fn fq_chunk(s: Seq<u8>, k: int) -> Seq<u8> {
    s.subrange(48 * k, 48 * k + 48)
}

/// Whether `order` names, for each of its places, a block among as many.
pub open spec fn is_chunk_order(order: Seq<usize>) -> bool {
    forall|k: int| 0 <= k < order.len() ==> (#[trigger] order[k]) < order.len()
}

/// The blocks of `src` in the order `order`, each with its bytes reversed:
/// block `k` of the result is block `order[k]` of `src` read backwards.
pub open spec fn reorder_reversed(src: Seq<u8>, order: Seq<usize>) -> Seq<u8> {
    Seq::new(48 * order.len(), |n: int| src[48 * order[n / 48] + 47 - n % 48])
}

/// Block `k` of a reordering is block `order[k]` of the source, reversed.
pub proof fn lemma_reorder_reversed_chunk(src: Seq<u8>, order: Seq<usize>, k: int)
    requires
        is_chunk_order(order),
        src.len() == 48 * order.len(),
        0 <= k < order.len(),
    ensures
        fq_chunk(reorder_reversed(src, order), k) == fq_chunk(src, order[k] as int).reverse(),
        be_value(fq_chunk(reorder_reversed(src, order), k)) == le_value(
            fq_chunk(src, order[k] as int),
        ),
        le_value(fq_chunk(reorder_reversed(src, order), k)) == be_value(
            fq_chunk(src, order[k] as int),
        ),
{
    let out = fq_chunk(reorder_reversed(src, order), k);
    let block = fq_chunk(src, order[k] as int);
    assert forall|i: int| 0 <= i < 48 implies out[i] == block.reverse()[i] by {
        assert((48 * k + i) / 48 == k);
        assert((48 * k + i) % 48 == i);
    }
    assert(out =~= block.reverse());
    assert(block.reverse().reverse() =~= block);
}

/// Reordering by `there` and then by `back` restores the source when `back`
/// undoes `there`.
pub proof fn lemma_reorder_reversed_inverse(src: Seq<u8>, there: Seq<usize>, back: Seq<usize>)
    requires
        is_chunk_order(there),
        is_chunk_order(back),
        there.len() == back.len(),
        src.len() == 48 * there.len(),
        forall|k: int| 0 <= k < back.len() ==> there[(#[trigger] back[k]) as int] == k,
    ensures
        reorder_reversed(reorder_reversed(src, there), back) == src,
{
    let mid = reorder_reversed(src, there);
    let out = reorder_reversed(mid, back);
    assert forall|n: int| 0 <= n < src.len() implies out[n] == src[n] by {
        let k = n / 48;
        let i = n % 48;
        let m = 48 * back[k] + 47 - i;
        assert(back[k] < back.len());
        assert(m / 48 == back[k] as int);
        assert(m % 48 == 47 - i);
        assert(there[back[k] as int] == k);
    }
    assert(out =~= src);
}

/// Copies the 48-byte blocks of `src` in the order `order`, reversing the
/// bytes of each.
pub fn reorder_reversed_bytes<const N: usize>(src: &[u8; N], order: &[usize]) -> (out: [u8; N])
    requires
        is_chunk_order(order@),
        N == 48 * order@.len(),
    ensures
        out@ == reorder_reversed(src@, order@),
{
    let mut out: [u8; N] = [0u8; N];
    let count: usize = order.len();
    let mut k: usize = 0;
    while k < count
        invariant
            k <= count,
            count == order@.len(),
            is_chunk_order(order@),
            N == 48 * count,
            forall|n: int| 0 <= n < 48 * k ==> out@[n] == reorder_reversed(src@, order@)[n],
        decreases count - k,
    {
        let from: usize = order[k];
        let mut i: usize = 0;
        while i < 48
            invariant
                i <= 48,
                k < count,
                count == order@.len(),
                N == 48 * count,
                from == order@[k as int],
                from < count,
                forall|n: int|
                    0 <= n < 48 * k + i ==> out@[n] == reorder_reversed(src@, order@)[n],
            decreases 48 - i,
        {
            let b: u8 = src[48 * from + (47 - i)];
            proof {
                assert((48 * k + i) / 48 == k as int);
                assert((48 * k + i) % 48 == i as int);
            }
            out[48 * k + i] = b;
            i = i + 1;
        }
        k = k + 1;
    }
    proof {
        assert(out@ =~= reorder_reversed(src@, order@));
    }
    out
}

/// Whether two byte strings are the same.
pub fn bytes_equal(a: &[u8], b: &[u8]) -> (r: bool)
    ensures
        r == (a@ == b@),
{
    if a.len() != b.len() {
        return false;
    }
    let n: usize = a.len();
    let mut i: usize = 0;
    while i < n
        invariant
            i <= n,
            n == a@.len(),
            n == b@.len(),
            forall|j: int| 0 <= j < i ==> a@[j] == b@[j],
        decreases n - i,
    {
        if a[i] != b[i] {
            return false;
        }
        i = i + 1;
    }
    proof {
        assert(a@ =~= b@);
    }
    true
}

} // verus!
