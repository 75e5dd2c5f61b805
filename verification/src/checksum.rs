//! The mathematics of the one's-complement Internet checksum.
//!
//! A span of bytes is read as big-endian 16-bit words, an odd trailing byte
//! being the high byte of a word padded with zero. The words are added, the
//! carries above 16 bits are folded back into the low 16 bits until none is
//! left, and the result is complemented. For a sum that fits 32 bits two
//! folds are enough.

use vstd::prelude::*;
use crate::wire::{be16, high_byte, low_byte, with_be16};

verus! {

/// What the byte `b` at index `i` of a span adds to the sum of the span's
/// big-endian 16-bit words: it is a high byte at an even index, a low byte at
/// an odd one.
pub open spec fn byte_term(i: int, b: u8) -> nat {
    if i % 2 == 0 {
        256 * (b as nat)
    } else {
        b as nat
    }
}

/// The sum of the big-endian 16-bit words of `p`.
pub open spec fn word_sum(p: Seq<u8>) -> nat
    decreases p.len(),
{
    if p.len() == 0 {
        0
    } else {
        word_sum(p.drop_last()) + byte_term(p.len() - 1, p.last())
    }
}

/// One folding step: the carries above 16 bits are added to the low 16 bits.
pub open spec fn fold_carries(s: nat) -> nat {
    s / 0x1_0000 + s % 0x1_0000
}

/// `s` with its carries folded until none is left: the one's-complement sum
/// of the 16-bit words that add up to `s`.
pub open spec fn end_around(s: nat) -> nat
    decreases s,
{
    if s < 0x1_0000 {
        s
    } else {
        end_around(fold_carries(s))
    }
}

/// The Internet checksum of the span `p`, started from the partial sum
/// `partial` (that of a pseudo-header, or zero).
pub open spec fn internet_checksum(partial: nat, p: Seq<u8>) -> int {
    0xffff - end_around(partial + word_sum(p))
}

/// The checksum as it is written into a packet: two bytes, high byte first.
pub open spec fn checksum_bytes(partial: nat, p: Seq<u8>) -> Seq<u8> {
    seq![high_byte(internet_checksum(partial, p)), low_byte(internet_checksum(partial, p))]
}

/// A span verifies when the checksum taken over it, its own checksum field
/// included, is zero.
pub open spec fn checksum_valid(partial: nat, p: Seq<u8>) -> bool {
    internet_checksum(partial, p) == 0
}

/// The largest sum that a span of `len` bytes can have.
pub open spec fn max_word_sum(len: nat) -> nat {
    0xffff * ((len + 1) / 2)
}

/// The folded sum fits 16 bits, is congruent to the sum modulo 65535, and
/// is zero only for the sum zero.
pub proof fn lemma_end_around(s: nat)
    ensures
        end_around(s) <= 0xffff,
        end_around(s) % 65535 == s % 65535,
        end_around(s) == 0 <==> s == 0,
    decreases s,
{
    if s >= 0x1_0000 {
        lemma_end_around(fold_carries(s));
    }
}

/// For a sum that fits 32 bits, folding twice leaves no carry.
pub proof fn lemma_two_folds_suffice(s: nat)
    requires
        s <= u32::MAX,
    ensures
        end_around(s) == fold_carries(fold_carries(s)) % 0x1_0000,
        fold_carries(fold_carries(s)) <= 0xffff,
{
    let a = fold_carries(s);
    let b = fold_carries(a);
    assert(a <= 0x1_fffe);
    assert(b <= 0xffff);
    if s < 0x1_0000 {
    } else if a < 0x1_0000 {
        assert(end_around(s) == end_around(a));
    } else {
        assert(end_around(s) == end_around(a));
        assert(end_around(a) == end_around(b));
    }
}

/// A span of `len` bytes sums to at most 65535 for each of its words.
pub proof fn lemma_word_sum_bound(p: Seq<u8>)
    ensures
        word_sum(p) <= max_word_sum(p.len()),
    decreases p.len(),
{
    if p.len() == 1 {
        assert(word_sum(p.drop_last()) == 0);
    } else if p.len() >= 2 {
        let q = p.drop_last();
        assert(word_sum(q) == word_sum(q.drop_last()) + byte_term(q.len() - 1, q.last()));
        lemma_word_sum_bound(q);
        lemma_word_sum_bound(q.drop_last());
    }
}

/// The sum over a prefix of a span is at most the sum over the span.
pub proof fn lemma_word_sum_prefix(p: Seq<u8>, k: int)
    requires
        0 <= k <= p.len(),
    ensures
        word_sum(p.take(k)) <= word_sum(p),
    decreases p.len(),
{
    if k == p.len() {
        assert(p.take(k) =~= p);
    } else {
        assert(p.drop_last().take(k) =~= p.take(k));
        lemma_word_sum_prefix(p.drop_last(), k);
    }
}

/// Extending a prefix by one byte adds that byte's term.
pub proof fn lemma_word_sum_step(p: Seq<u8>, k: int)
    requires
        0 <= k < p.len(),
    ensures
        word_sum(p.take(k + 1)) == word_sum(p.take(k)) + byte_term(k, p[k]),
{
    assert(p.take(k + 1).drop_last() =~= p.take(k));
}

/// The sum of two spans put together, the first of even length, is the sum
/// of their sums.
pub proof fn lemma_word_sum_concat(first: Seq<u8>, second: Seq<u8>)
    requires
        first.len() % 2 == 0,
    ensures
        word_sum(first + second) == word_sum(first) + word_sum(second),
    decreases second.len(),
{
    if second.len() == 0 {
        assert(first + second =~= first);
    } else {
        assert((first + second).drop_last() =~= first + second.drop_last());
        lemma_word_sum_concat(first, second.drop_last());
    }
}

/// Folding may come early: a sum whose first part is folded before the
/// rest is added folds to the same.
pub proof fn lemma_end_around_add(x: nat, y: nat)
    ensures
        end_around(end_around(x) + y) == end_around(x + y),
{
    lemma_end_around(x);
    lemma_end_around(end_around(x) + y);
    lemma_end_around(x + y);
    let u = end_around(x) + y;
    let v = x + y;
    assert(u % 65535 == v % 65535);
    assert(u == 0 <==> v == 0);
}

/// Changing one byte replaces that byte's term in the sum.
pub proof fn lemma_word_sum_update(p: Seq<u8>, i: int, b: u8)
    requires
        0 <= i < p.len(),
    ensures
        word_sum(p.update(i, b)) + byte_term(i, p[i]) == word_sum(p) + byte_term(i, b),
    decreases p.len(),
{
    let q = p.update(i, b);
    if i == p.len() - 1 {
        assert(q.drop_last() =~= p.drop_last());
    } else {
        assert(q.drop_last() =~= p.drop_last().update(i, b));
        lemma_word_sum_update(p.drop_last(), i, b);
    }
}

/// Writing a 16-bit field at an even offset replaces one word of the sum.
pub proof fn lemma_word_sum_with_be16(p: Seq<u8>, at: int, value: int)
    requires
        0 <= at,
        at + 1 < p.len(),
        at % 2 == 0,
        0 <= value <= 0xffff,
    ensures
        word_sum(with_be16(p, at, value)) + be16(p[at], p[at + 1]) == word_sum(p) + value,
{
    let q = p.update(at, high_byte(value));
    lemma_word_sum_update(p, at, high_byte(value));
    lemma_word_sum_update(q, at + 1, low_byte(value));
}

/// The checksum fits 16 bits, and a span verifies exactly when the checksum
/// taken over it is written as two zero bytes.
pub proof fn lemma_valid_iff_zero_bytes(partial: nat, p: Seq<u8>)
    ensures
        0 <= internet_checksum(partial, p) <= 0xffff,
        checksum_valid(partial, p) <==> checksum_bytes(partial, p) == seq![0u8, 0u8],
{
    lemma_end_around(partial + word_sum(p));
    let c = internet_checksum(partial, p);
    if checksum_valid(partial, p) {
        assert(checksum_bytes(partial, p) =~= seq![0u8, 0u8]);
    }
    if checksum_bytes(partial, p) == seq![0u8, 0u8] {
        assert(checksum_bytes(partial, p)[0] == 0u8);
        assert(checksum_bytes(partial, p)[1] == 0u8);
        assert(c == 256 * (c / 256) + c % 256);
    }
}

/// A span whose checksum field, at an even offset, holds the checksum that
/// was taken with the field zeroed, verifies.
pub proof fn lemma_checksum_round_trip(partial: nat, p: Seq<u8>, at: int)
    requires
        0 <= at,
        at + 1 < p.len(),
        at % 2 == 0,
    ensures
        checksum_valid(
            partial,
            with_be16(p, at, internet_checksum(partial, with_be16(p, at, 0))),
        ),
{
    let zeroed = with_be16(p, at, 0);
    let s0 = partial + word_sum(zeroed);
    let c = internet_checksum(partial, zeroed);
    lemma_end_around(s0);
    let written = with_be16(p, at, c);
    assert(written =~= with_be16(zeroed, at, c));
    lemma_word_sum_with_be16(zeroed, at, c);
    let s1 = partial + word_sum(written);
    assert(s1 == s0 + c);
    lemma_end_around(s1);
}

} // verus!
