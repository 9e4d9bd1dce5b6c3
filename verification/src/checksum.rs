//! The Internet checksum: the one's complement of the end-around-carry sum
//! of the 16-bit big-endian words of a byte region. IPv4 headers and ICMP
//! messages carry such a checksum; a receiver accepts a region when its
//! words, stored checksum included, fold to all ones.

use vstd::prelude::*;
use vstd::arithmetic::div_mod::lemma_fundamental_div_mod;
use vstd::arithmetic::div_mod::lemma_mod_multiples_vanish;

verus! {

/// The 16-bit big-endian word formed by two bytes.
pub open spec fn word16(hi: u8, lo: u8) -> int {
    256 * (hi as int) + (lo as int)
}

/// The plain (not yet carry-folded) sum of the 16-bit big-endian words of a
/// byte sequence. An odd trailing byte counts as the high byte of a final
/// word whose low byte is zero.
pub open spec fn sum_words(s: Seq<u8>) -> int
    decreases s.len(),
{
    if s.len() >= 2 {
        word16(s[0], s[1]) + sum_words(s.skip(2))
    } else if s.len() == 1 {
        256 * (s[0] as int)
    } else {
        0
    }
}

/// End-around carry folding: add the bits above the low 16 back into the low
/// 16 until the value fits in 16 bits.
pub open spec fn fold16(x: int) -> int
    decreases x when x >= 0 via fold16_decreases
{
    if x < 0x10000 {
        x
    } else {
        fold16(x / 0x10000 + x % 0x10000)
    }
}

#[via_fn]
proof fn fold16_decreases(x: int) {
    if x >= 0x10000 {
        lemma_fundamental_div_mod(x, 0x10000);
    }
}

/// The Internet checksum of a byte region, as a value in `0 ..= 0xFFFF`.
pub open spec fn checksum16(s: Seq<u8>) -> int {
    0xFFFF - fold16(sum_words(s))
}

/// The receiver's validity test: the words of the region, stored checksum
/// included, fold to all ones, so the complement of the re-sum is zero.
pub open spec fn sums_to_all_ones(s: Seq<u8>) -> bool {
    fold16(sum_words(s)) == 0xFFFF
}

pub proof fn lemma_sum_words_nonneg(s: Seq<u8>)
    ensures
        sum_words(s) >= 0,
    decreases s.len(),
{
    if s.len() >= 2 {
        lemma_sum_words_nonneg(s.skip(2));
    }
}

pub proof fn lemma_sum_words_bound(s: Seq<u8>)
    ensures
        sum_words(s) <= s.len() * 0xFFFF,
    decreases s.len(),
{
    if s.len() >= 2 {
        lemma_sum_words_bound(s.skip(2));
    }
}

/// The word sum distributes over concatenation at a word boundary.
pub proof fn lemma_sum_words_concat(t: Seq<u8>, u: Seq<u8>)
    requires
        t.len() % 2 == 0,
    ensures
        sum_words(t + u) == sum_words(t) + sum_words(u),
    decreases t.len(),
{
    if t.len() == 0 {
        assert(t + u =~= u);
    } else {
        assert((t + u).skip(2) =~= t.skip(2) + u);
        lemma_sum_words_concat(t.skip(2), u);
    }
}

/// Replacing the word at word index `k` changes the sum by the word
/// difference.
pub proof fn lemma_sum_words_update_word(s: Seq<u8>, k: int, hi: u8, lo: u8)
    requires
        0 <= k,
        2 * k + 1 < s.len(),
    ensures
        sum_words(s.update(2 * k, hi).update(2 * k + 1, lo)) == sum_words(s) - word16(
            s[2 * k],
            s[2 * k + 1],
        ) + word16(hi, lo),
    decreases k,
{
    let s2 = s.update(2 * k, hi).update(2 * k + 1, lo);
    if k == 0 {
        assert(s2.skip(2) =~= s.skip(2));
    } else {
        assert(s2.skip(2) =~= s.skip(2).update(2 * (k - 1), hi).update(2 * (k - 1) + 1, lo));
        lemma_sum_words_update_word(s.skip(2), k - 1, hi, lo);
    }
}

pub proof fn lemma_fold16_bounds(x: int)
    requires
        x >= 0,
    ensures
        0 <= fold16(x) < 0x10000,
    decreases x,
{
    if x >= 0x10000 {
        lemma_fundamental_div_mod(x, 0x10000);
        lemma_fold16_bounds(x / 0x10000 + x % 0x10000);
    }
}

pub proof fn lemma_fold16_pos(x: int)
    requires
        x > 0,
    ensures
        fold16(x) > 0,
    decreases x,
{
    if x >= 0x10000 {
        lemma_fundamental_div_mod(x, 0x10000);
        lemma_fold16_pos(x / 0x10000 + x % 0x10000);
    }
}

/// Folding keeps the value's residue modulo 0xFFFF: the carry re-entering at
/// the bottom stands for 0x10000 == 0xFFFF + 1.
pub proof fn lemma_fold16_mod(x: int)
    requires
        x >= 0,
    ensures
        fold16(x) % 0xFFFF == x % 0xFFFF,
    decreases x,
{
    if x >= 0x10000 {
        let q = x / 0x10000;
        let r = x % 0x10000;
        lemma_fundamental_div_mod(x, 0x10000);
        assert(x == 0xFFFF * q + (q + r));
        lemma_mod_multiples_vanish(q, q + r, 0xFFFF);
        lemma_fold16_mod(q + r);
    }
}

/// Adding the complement of a value's fold makes the total fold to all ones.
pub proof fn lemma_fold16_complement(x: int)
    requires
        x >= 0,
    ensures
        fold16(x + 0xFFFF - fold16(x)) == 0xFFFF,
{
    lemma_fold16_bounds(x);
    let f = fold16(x);
    let t = x + 0xFFFF - f;
    if f == 0xFFFF {
        assert(t == x);
    } else {
        assert(t > 0);
        lemma_fold16_mod(x);
        lemma_fundamental_div_mod(x, 0xFFFF);
        assert(x % 0xFFFF == f) by {
            assert(f % 0xFFFF == f);
        }
        assert(t == 0xFFFF * (x / 0xFFFF + 1));
        lemma_mod_multiples_vanish(x / 0xFFFF + 1, 0, 0xFFFF);
        assert(t % 0xFFFF == 0);
        lemma_fold16_bounds(t);
        lemma_fold16_pos(t);
        lemma_fold16_mod(t);
        assert(fold16(t) % 0xFFFF == 0);
        if fold16(t) < 0xFFFF {
            assert(fold16(t) % 0xFFFF == fold16(t));
        }
    }
}

/// Storing the checksum of a region into its zeroed, word-aligned checksum
/// field yields a region that passes the receiver's validity test.
pub proof fn lemma_stored_checksum_validates(s: Seq<u8>, k: int)
    requires
        0 <= k,
        2 * k + 1 < s.len(),
        s[2 * k] == 0,
        s[2 * k + 1] == 0,
    ensures
        ({
            let c = checksum16(s);
            sums_to_all_ones(s.update(2 * k, (c / 256) as u8).update(2 * k + 1, (c % 256) as u8))
        }),
{
    lemma_sum_words_nonneg(s);
    lemma_fold16_bounds(sum_words(s));
    let c = checksum16(s);
    assert(0 <= c <= 0xFFFF);
    lemma_fundamental_div_mod(c, 256);
    assert(0 <= c / 256 < 256);
    assert(word16((c / 256) as u8, (c % 256) as u8) == c);
    lemma_sum_words_update_word(s, k, (c / 256) as u8, (c % 256) as u8);
    assert(word16(s[2 * k], s[2 * k + 1]) == 0);
    lemma_fold16_complement(sum_words(s));
}

/// Computes the Internet checksum of `v[start..end]`.
pub fn internet_checksum(v: &Vec<u8>, start: usize, end: usize) -> (r: u16)
    requires
        start <= end,
        end <= v@.len(),
        end - start <= 0x1_0000_0000,
    ensures
        r as int == checksum16(v@.subrange(start as int, end as int)),
{
    let ghost total: Seq<u8> = v@.subrange(start as int, end as int);
    let mut i: usize = start;
    let mut sum: u64 = 0;
    while end - i >= 2
        invariant
            start <= i <= end,
            end <= v@.len(),
            end - start <= 0x1_0000_0000,
            (i - start) % 2 == 0,
            sum == sum_words(v@.subrange(start as int, i as int)),
        decreases end - i,
    {
        proof {
            let pre = v@.subrange(start as int, i as int);
            let post = v@.subrange(start as int, i as int + 2);
            let pair = seq![v@[i as int], v@[i as int + 1]];
            assert(post =~= pre + pair);
            lemma_sum_words_concat(pre, pair);
            assert(pair.skip(2) =~= Seq::<u8>::empty());
            assert(sum_words(Seq::<u8>::empty()) == 0);
            assert(sum_words(pair) == word16(v@[i as int], v@[i as int + 1]));
            lemma_sum_words_nonneg(pre);
            lemma_sum_words_bound(post);
        }
        let w: u64 = 256 * (v[i] as u64) + (v[i + 1] as u64);
        sum = sum + w;
        i = i + 2;
    }
    if i < end {
        proof {
            let pre = v@.subrange(start as int, i as int);
            let post = v@.subrange(start as int, end as int);
            let last = seq![v@[i as int]];
            assert(post =~= pre + last);
            lemma_sum_words_concat(pre, last);
            assert(sum_words(last) == 256 * (v@[i as int] as int));
            lemma_sum_words_nonneg(pre);
            lemma_sum_words_bound(post);
        }
        let w: u64 = 256 * (v[i] as u64);
        sum = sum + w;
    }
    proof {
        assert(v@.subrange(start as int, i as int) =~= total || i < end);
        assert(sum as int == sum_words(total));
        lemma_sum_words_nonneg(total);
    }
    while sum > 0xFFFF
        invariant
            sum >= 0,
            fold16(sum as int) == fold16(sum_words(total)),
        decreases sum,
    {
        proof {
            lemma_fundamental_div_mod(sum as int, 0x10000);
            assert(fold16(sum as int) == fold16(
                (sum as int) / 0x10000 + (sum as int) % 0x10000,
            ));
        }
        sum = sum / 0x10000 + sum % 0x10000;
    }
    assert(fold16(sum as int) == sum as int);
    0xFFFFu16 - (sum as u16)
}

} // verus!
