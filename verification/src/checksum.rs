//! One's-complement checksum arithmetic shared by the IPv4 header checksum
//! and the TCP checksum.
//!
//! A checksum is the complement of the 16-bit one's-complement sum of the
//! big-endian 16-bit words of a byte range (a trailing odd byte counts as the
//! high byte of a final word).  Carries above 16 bits are folded back into
//! the sum until it fits in 16 bits.

use vstd::prelude::*;
use vstd::arithmetic::div_mod::lemma_fundamental_div_mod;
use vstd::arithmetic::div_mod::lemma_mod_equivalence;
use vstd::arithmetic::div_mod::lemma_mod_multiples_vanish;
use vstd::arithmetic::div_mod::lemma_small_mod;

verus! {

/// Folds the carries of a one's-complement accumulator back into the low 16
/// bits until the value fits in 16 bits.
pub open spec fn fold16(x: int) -> int
    decreases x,
{
    if x < 0x10000 {
        x
    } else {
        fold16(x % 0x10000 + x / 0x10000)
    }
}

/// The sum of the big-endian 16-bit words of `b`; a trailing odd byte is the
/// high byte of a final word.  Carries are not folded here.
pub open spec fn sum_words(b: Seq<u8>) -> int
    decreases b.len(),
{
    if b.len() == 0 {
        0
    } else if b.len() == 1 {
        256 * (b[0] as int)
    } else {
        256 * (b[0] as int) + (b[1] as int) + sum_words(b.skip(2))
    }
}

/// The checksum of a byte range: the complement of the folded word sum.
pub open spec fn checksum_of(b: Seq<u8>) -> int {
    0xFFFF - fold16(sum_words(b))
}

/// A byte range passes checksum verification when its words (the stored
/// checksum among them) fold to `0xFFFF`.
pub open spec fn words_verify(b: Seq<u8>) -> bool {
    fold16(sum_words(b)) == 0xFFFF
}

pub proof fn lemma_sum_words_bounds(b: Seq<u8>)
    ensures
        0 <= sum_words(b) <= 0xFFFF * b.len(),
    decreases b.len(),
{
    if b.len() >= 2 {
        lemma_sum_words_bounds(b.skip(2));
    }
}

pub proof fn lemma_fold16_bounds(x: int)
    requires
        x >= 0,
    ensures
        0 <= fold16(x) <= 0xFFFF,
        fold16(x) <= x,
    decreases x,
{
    if x >= 0x10000 {
        lemma_fundamental_div_mod(x, 0x10000);
        lemma_fold16_bounds(x % 0x10000 + x / 0x10000);
    }
}

pub proof fn lemma_fold16_zero(x: int)
    requires
        x >= 0,
    ensures
        fold16(x) == 0 <==> x == 0,
    decreases x,
{
    if x >= 0x10000 {
        lemma_fundamental_div_mod(x, 0x10000);
        lemma_fold16_zero(x % 0x10000 + x / 0x10000);
    }
}

/// Folding preserves the value modulo `0xFFFF`: replacing `0x10000 * q` by
/// `q` subtracts a multiple of `0xFFFF`.
pub proof fn lemma_fold16_congruence(x: int)
    requires
        x >= 0,
    ensures
        fold16(x) % 0xFFFF == x % 0xFFFF,
    decreases x,
{
    if x >= 0x10000 {
        let q = x / 0x10000;
        let r = x % 0x10000;
        lemma_fundamental_div_mod(x, 0x10000);
        assert(x == 0xFFFF * q + (q + r));
        lemma_mod_multiples_vanish(q, q + r, 0xFFFF);
        lemma_fold16_congruence(q + r);
    }
}

/// The central fact behind checksum verification: adding the complement of
/// the folded sum to the sum itself makes the words fold to `0xFFFF`.
pub proof fn lemma_checksum_verifies(s: int)
    requires
        s >= 0,
    ensures
        fold16(s + 0xFFFF - fold16(s)) == 0xFFFF,
{
    let f = fold16(s);
    lemma_fold16_bounds(s);
    let t = s + 0xFFFF - f;
    if s == 0 {
        assert(fold16(0xFFFF) == 0xFFFF);
    } else {
        lemma_fold16_congruence(s);
        // t differs from s - f by the modulus, and s is congruent to f,
        // so t is a positive multiple of 0xFFFF.
        lemma_mod_equivalence(s, f, 0xFFFF);
        lemma_mod_multiples_vanish(1, s - f, 0xFFFF);
        assert(t == 0xFFFF * 1 + (s - f));
        assert(t % 0xFFFF == 0);
        lemma_fold16_bounds(t);
        lemma_fold16_congruence(t);
        lemma_fold16_zero(t);
        if fold16(t) < 0xFFFF {
            lemma_small_mod(fold16(t) as nat, 0xFFFF as nat);
        }
    }
}

/// The word sum splits at any even index.
pub proof fn lemma_sum_words_split(b: Seq<u8>, i: int)
    requires
        0 <= i <= b.len(),
        i % 2 == 0,
    ensures
        sum_words(b) == sum_words(b.take(i)) + sum_words(b.skip(i)),
    decreases i,
{
    if i == 0 {
        assert(b.skip(0) =~= b);
    } else {
        assert(b.len() >= 2);
        lemma_sum_words_split(b.skip(2), i - 2);
        assert(b.skip(2).take(i - 2) =~= b.take(i).skip(2));
        assert(b.skip(2).skip(i - 2) =~= b.skip(i));
    }
}

/// Replacing the two bytes of the word at an even index shifts the word sum
/// by the difference of the words.
pub proof fn lemma_sum_words_set_word(b: Seq<u8>, i: int, hi: u8, lo: u8)
    requires
        0 <= i,
        i % 2 == 0,
        i + 1 < b.len(),
    ensures
        sum_words(b.update(i, hi).update(i + 1, lo)) == sum_words(b) - 256 * (b[i] as int) - (
        b[i + 1] as int) + 256 * (hi as int) + (lo as int),
{
    let c = b.update(i, hi).update(i + 1, lo);
    lemma_sum_words_split(b, i);
    lemma_sum_words_split(c, i);
    assert(c.take(i) =~= b.take(i));
    assert(b.skip(i).skip(2) =~= c.skip(i).skip(2));
    assert(sum_words(b.skip(i)) == 256 * (b[i] as int) + (b[i + 1] as int) + sum_words(
        b.skip(i).skip(2),
    ));
    assert(sum_words(c.skip(i)) == 256 * (hi as int) + (lo as int) + sum_words(c.skip(i).skip(2)));
}

/// Sums the 16-bit big-endian words of `b[start..end]` without folding.
pub fn ones_sum(b: &Vec<u8>, start: usize, end: usize) -> (s: u64)
    requires
        start <= end,
        end <= b.len(),
        end - start <= 0x20000,
    ensures
        s == sum_words(b@.subrange(start as int, end as int)),
{
    let mut i = start;
    let mut acc: u64 = 0;
    while end - i >= 2
        invariant
            start <= i <= end,
            end <= b.len(),
            end - start <= 0x20000,
            (i - start) % 2 == 0,
            acc <= 0xFFFF * (i - start),
            sum_words(b@.subrange(start as int, end as int)) == acc + sum_words(
                b@.subrange(i as int, end as int),
            ),
        decreases end - i,
    {
        let w: u64 = 256 * (b[i] as u64) + (b[i + 1] as u64);
        proof {
            let rest = b@.subrange(i as int, end as int);
            assert(rest.len() >= 2);
            assert(rest[0] == b@[i as int]);
            assert(rest[1] == b@[i + 1]);
            assert(rest.skip(2) =~= b@.subrange(i + 2, end as int));
        }
        acc = acc + w;
        i = i + 2;
    }
    if i < end {
        proof {
            let rest = b@.subrange(i as int, end as int);
            assert(rest.len() == 1);
            assert(rest[0] == b@[i as int]);
        }
        acc = acc + 256 * (b[i] as u64);
    } else {
        proof {
            assert(b@.subrange(i as int, end as int).len() == 0);
        }
    }
    acc
}

/// Folds the carries of an accumulator until it fits in 16 bits.
pub fn fold_carries(s: u64) -> (c: u16)
    ensures
        c as int == fold16(s as int),
{
    let mut x = s;
    while x > 0xFFFF
        invariant
            fold16(x as int) == fold16(s as int),
        decreases x,
    {
        x = x % 0x10000 + x / 0x10000;
    }
    x as u16
}

/// The checksum of `b[start..end]`: the complement of the folded word sum.
pub fn checksum_range(b: &Vec<u8>, start: usize, end: usize) -> (c: u16)
    requires
        start <= end,
        end <= b.len(),
        end - start <= 0x20000,
    ensures
        c as int == checksum_of(b@.subrange(start as int, end as int)),
{
    let s = ones_sum(b, start, end);
    let f = fold_carries(s);
    0xFFFF - f
}

} // verus!
