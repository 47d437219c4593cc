//! The vector-table checksum and the signature word that cancels it.

use vstd::prelude::*;

verus! {

/// Words 0 through 6 are summed; word 7 receives the signature.
pub const SUMMED_WORDS: usize = 7;

/// Bytes covered by the summed words.
pub const SUMMED_LEN: usize = 28;

/// Bytes of the whole vector-table window (eight words).
pub const WINDOW_LEN: usize = 32;

/// 2^32, the modulus of all checksum arithmetic.
pub open spec fn modulus() -> int {
    0x1_0000_0000
}

/// The little-endian unsigned 32-bit word made of `d[i..i + 4]`.
pub open spec fn le_word_at(d: Seq<u8>, i: int) -> int {
    d[i] + 256 * d[i + 1] + 65536 * d[i + 2] + 16777216 * d[i + 3]
}

/// The sum (as an unbounded integer) of the first `n` little-endian words of `d`.
pub open spec fn word_sum(d: Seq<u8>, n: nat) -> int
    decreases n,
{
    if n == 0 {
        0
    } else {
        word_sum(d, (n - 1) as nat) + le_word_at(d, 4 * (n - 1))
    }
}

/// The place value of byte `i` inside its little-endian word.
pub open spec fn byte_weight(i: int) -> int {
    if i % 4 == 0 {
        1
    } else if i % 4 == 1 {
        256
    } else if i % 4 == 2 {
        65536
    } else {
        16777216
    }
}

/// The sum of the first `n` bytes of `d`, each taken at its place value.
pub open spec fn weighted_byte_sum(d: Seq<u8>, n: nat) -> int
    decreases n,
{
    if n == 0 {
        0
    } else {
        weighted_byte_sum(d, (n - 1) as nat) + byte_weight(n - 1) * d[n - 1]
    }
}

/// The checksum of a vector table: words 0 through 6 summed modulo 2^32.
pub open spec fn checksum_of(d: Seq<u8>) -> u32 {
    (word_sum(d, 7) % modulus()) as u32
}

/// The two's-complement of the checksum: the word that brings the sum to zero.
pub open spec fn signature_of(d: Seq<u8>) -> u32 {
    ((modulus() - checksum_of(d)) % modulus()) as u32
}

/// The four little-endian bytes of `v`.
pub open spec fn le_bytes(v: u32) -> Seq<u8> {
    seq![(v % 256) as u8, ((v / 256) % 256) as u8, ((v / 65536) % 256) as u8, (v / 16777216) as u8]
}

/// `d` with the signature of the window at `ofs` stored into that window's word 7.
pub open spec fn signed_at(d: Seq<u8>, ofs: int) -> Seq<u8> {
    d.subrange(0, ofs + 28) + le_bytes(signature_of(d.subrange(ofs, ofs + 28))) + d.subrange(
        ofs + 32,
        d.len() as int,
    )
}

/// Reads the little-endian word at byte `i`.
pub fn read_le_u32(d: &[u8], i: usize) -> (r: u32)
    requires
        i + 4 <= d@.len(),
    ensures
        r == le_word_at(d@, i as int),
{
    let b0 = d[i] as u32;
    let b1 = d[i + 1] as u32;
    let b2 = d[i + 2] as u32;
    let b3 = d[i + 3] as u32;
    b0 + 256 * b1 + 65536 * b2 + 16777216 * b3
}

/// Sums the seven words of the window at `ofs` one word at a time, modulo 2^32.
pub fn checksum_incremental(d: &[u8], ofs: usize) -> (r: u32)
    requires
        ofs + SUMMED_LEN <= d@.len(),
    ensures
        r == word_sum(d@.subrange(ofs as int, ofs + 28), 7) % modulus(),
{
    let ghost w = d@.subrange(ofs as int, ofs + 28);
    let mut sum: u32 = 0;
    let mut k: usize = 0;
    while k < SUMMED_WORDS
        invariant
            k <= 7,
            ofs + 28 <= d.len(),
            w == d@.subrange(ofs as int, ofs + 28),
            sum == word_sum(w, k as nat) % modulus(),
        decreases 7 - k,
    {
        let v = read_le_u32(d, ofs + 4 * k);
        assert(le_word_at(w, 4 * k) == le_word_at(d@, ofs + 4 * k));
        proof {
            vstd::arithmetic::div_mod::lemma_add_mod_noop(word_sum(w, k as nat), v as int, modulus());
        }
        sum = sum.wrapping_add(v);
        k = k + 1;
    }
    sum
}

/// Sums the 28 bytes of the window at `ofs` in one pass, each byte at its
/// place value, modulo 2^32.
pub fn checksum_full(d: &[u8], ofs: usize) -> (r: u32)
    requires
        ofs + SUMMED_LEN <= d@.len(),
    ensures
        r == weighted_byte_sum(d@.subrange(ofs as int, ofs + 28), 28) % modulus(),
{
    let ghost w = d@.subrange(ofs as int, ofs + 28);
    let mut sum: u32 = 0;
    let mut i: usize = 0;
    let mut weight: u32 = 1;
    while i < SUMMED_LEN
        invariant
            i <= 28,
            ofs + 28 <= d.len(),
            w == d@.subrange(ofs as int, ofs + 28),
            weight == byte_weight(i as int),
            sum == weighted_byte_sum(w, i as nat) % modulus(),
        decreases 28 - i,
    {
        let term = (d[ofs + i] as u32) * weight;
        assert(w[i as int] == d@[ofs + i]);
        assert(term == byte_weight(i as int) * w[i as int]);
        assert(weighted_byte_sum(w, (i + 1) as nat) == weighted_byte_sum(w, i as nat) + term);
        proof {
            vstd::arithmetic::div_mod::lemma_add_mod_noop(
                weighted_byte_sum(w, i as nat),
                term as int,
                modulus(),
            );
        }
        sum = sum.wrapping_add(term);
        i = i + 1;
        weight = if weight == 16777216 {
            1
        } else {
            weight * 256
        };
    }
    sum
}

/// Summing the first `4 * n` bytes at their place values gives the sum of the
/// first `n` little-endian words.
pub proof fn lemma_weighted_bytes_are_words(d: Seq<u8>, n: nat)
    requires
        4 * n <= d.len(),
    ensures
        weighted_byte_sum(d, 4 * n) == word_sum(d, n),
    decreases n,
{
    if n > 0 {
        let m = (n - 1) as nat;
        lemma_weighted_bytes_are_words(d, m);
        assert((4 * m) % 4 == 0);
        assert((4 * m + 1) % 4 == 1);
        assert((4 * m + 2) % 4 == 2);
        assert((4 * m + 3) % 4 == 3);
        assert(weighted_byte_sum(d, 4 * n) == weighted_byte_sum(d, 4 * m) + le_word_at(
            d,
            4 * m as int,
        )) by {
            assert(4 * n == 4 * m + 4);
            reveal_with_fuel(weighted_byte_sum, 4);
        }
    }
}

/// The one-pass and the word-by-word checksums agree on every window.
pub proof fn lemma_checksums_agree(d: Seq<u8>)
    requires
        d.len() >= 28,
    ensures
        weighted_byte_sum(d, 28) % modulus() == word_sum(d, 7) % modulus(),
{
    lemma_weighted_bytes_are_words(d, 7);
}

/// The word sum of the first `n` words reads no byte past `4 * n`.
pub proof fn lemma_word_sum_prefix(a: Seq<u8>, b: Seq<u8>, n: nat)
    requires
        4 * n <= a.len(),
        4 * n <= b.len(),
        forall|i: int| 0 <= i < 4 * n ==> a[i] == b[i],
    ensures
        word_sum(a, n) == word_sum(b, n),
    decreases n,
{
    if n > 0 {
        lemma_word_sum_prefix(a, b, (n - 1) as nat);
    }
}

/// The four bytes of `le_bytes(v)`, read back as a little-endian word, give `v`.
pub proof fn lemma_le_bytes_round_trip(v: u32)
    ensures
        le_word_at(le_bytes(v), 0) == v,
{
    assert(v == (v % 256) + 256 * ((v / 256) % 256) + 65536 * ((v / 65536) % 256) + 16777216 * (v
        / 16777216)) by (bit_vector);
}

/// Stores the signature of the window at `ofs` into the window's word 7.
pub fn sign_at(d: &mut [u8], ofs: usize)
    requires
        ofs + WINDOW_LEN <= old(d).len(),
    ensures
        final(d)@ == signed_at(old(d)@, ofs as int),
{
    let ghost w = d@.subrange(ofs as int, ofs + 28);
    let full = checksum_full(d, ofs);
    let incremental = checksum_incremental(d, ofs);
    // The two sums read the window along different paths; that they agree
    // is proved here once and for all, so no run can ever see them differ.
    proof {
        lemma_checksums_agree(w);
    }
    assert(full == incremental);
    let sig = 0u32.wrapping_sub(incremental);
    assert(sig == signature_of(w));
    d[ofs + 28] = (sig % 256) as u8;
    d[ofs + 29] = ((sig / 256) % 256) as u8;
    d[ofs + 30] = ((sig / 65536) % 256) as u8;
    d[ofs + 31] = (sig / 16777216) as u8;
    assert(d@ =~= signed_at(old(d)@, ofs as int));
}

/// Signs a vector-table window in place: word 7 (bytes 28 to 31) becomes the
/// two's-complement of the sum of words 0 through 6, so that all eight words
/// sum to zero modulo 2^32. Nothing else in the window changes.
pub fn write_signature(data: &mut [u8])
    requires
        old(data)@.len() >= WINDOW_LEN,
    ensures
        final(data)@ == signed_at(old(data)@, 0),
        final(data)@.len() == old(data)@.len(),
        forall|i: int|
            0 <= i < final(data)@.len() && !(28 <= i < 32) ==> final(data)@[i] == old(data)@[i],
        le_word_at(final(data)@, 28) == signature_of(old(data)@),
        le_word_at(final(data)@, 28) == (modulus() - word_sum(old(data)@, 7) % modulus())
            % modulus(),
        word_sum(final(data)@, 8) % modulus() == 0,
{
    let ghost d0 = data@;
    sign_at(data, 0);
    let ghost d1 = data@;
    proof {
        lemma_word_sum_prefix(d0, d0.subrange(0, 28), 7);
        lemma_word_sum_prefix(d0, d1, 7);
        let sig = signature_of(d0);
        lemma_le_bytes_round_trip(sig);
        assert(le_word_at(d1, 28) == le_word_at(le_bytes(sig), 0));
        let s = word_sum(d0, 7);
        assert(word_sum(d1, 8) == s + sig);
        assert((s + (modulus() - s % modulus()) % modulus()) % modulus() == 0) by {
            vstd::arithmetic::div_mod::lemma_add_mod_noop(s, modulus() - s % modulus(), modulus());
            vstd::arithmetic::div_mod::lemma_mod_twice(s, modulus());
        }
    }
}

/// Signing is idempotent: the summed words are left as they are, so signing
/// the same window again stores the same word 7 and changes nothing.
pub proof fn lemma_sign_idempotent(d: Seq<u8>, ofs: int)
    requires
        0 <= ofs,
        ofs + 32 <= d.len(),
    ensures
        signed_at(signed_at(d, ofs), ofs) == signed_at(d, ofs),
{
    let once = signed_at(d, ofs);
    assert(once.subrange(ofs, ofs + 28) =~= d.subrange(ofs, ofs + 28));
    assert(signed_at(once, ofs) =~= once);
}

} // verus!
