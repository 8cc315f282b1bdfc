//! The Internet checksum (RFC 1071): one's-complement sum of the buffer
//! read as big-endian 16-bit words, carries folded back in, final value
//! complemented. Used by the crafter to fill the IPv4, TCP and ICMP
//! checksum fields, and by validators to check a received header.

use vstd::prelude::*;
use vstd::arithmetic::div_mod::{
    lemma_fundamental_div_mod, lemma_add_mod_noop, lemma_mod_multiples_vanish, lemma_small_mod,
    lemma_mod_bound,
};

verus! {

/// The big-endian 16-bit word of `data` starting at index `i`; a missing
/// low byte (the final byte of an odd-length buffer) counts as zero.
pub open spec fn word_at(data: Seq<u8>, i: int) -> int
    recommends
        0 <= i < data.len(),
{
    if i + 1 < data.len() {
        data[i] * 256 + data[i + 1]
    } else {
        data[i] * 256
    }
}

/// Plain integer sum of the 16-bit words of `data` from index `i` upward.
pub open spec fn sum_words_from(data: Seq<u8>, i: int) -> int
    decreases data.len() - i + 2,
{
    if i < 0 || i >= data.len() {
        0
    } else {
        word_at(data, i) + sum_words_from(data, i + 2)
    }
}

/// Integer sum of all 16-bit words of `data`.
pub open spec fn sum_words(data: Seq<u8>) -> int {
    sum_words_from(data, 0)
}

/// Folds the carries of a word sum back into the low 16 bits until none
/// remain, as RFC 1071 prescribes.
pub open spec fn fold_carries(s: int) -> int
    recommends
        0 <= s,
    decreases s,
    via fold_carries_decreases
{
    if s < 0x10000 {
        s
    } else {
        fold_carries(s % 0x10000 + s / 0x10000)
    }
}

#[via_fn]
proof fn fold_carries_decreases(s: int) {
    if s >= 0x10000 {
        lemma_fundamental_div_mod(s, 0x10000);
        lemma_mod_bound(s, 0x10000);
    }
}

/// The Internet checksum of a byte buffer: the one's complement of the
/// folded word sum.
pub open spec fn checksum_spec(data: Seq<u8>) -> int {
    0xFFFF - fold_carries(sum_words(data))
}

proof fn lemma_sum_words_nonneg(data: Seq<u8>, i: int)
    ensures
        sum_words_from(data, i) >= 0,
    decreases data.len() - i + 2,
{
    if 0 <= i < data.len() {
        lemma_sum_words_nonneg(data, i + 2);
    }
}

/// Basic shape of the carry fold: it lands in one 16-bit word, never
/// exceeds its argument, keeps its residue modulo 0xFFFF, and is zero
/// exactly on zero.
proof fn lemma_fold_carries_props(s: int)
    requires
        s >= 0,
    ensures
        0 <= fold_carries(s) <= 0xFFFF,
        fold_carries(s) <= s,
        fold_carries(s) % 0xFFFF == s % 0xFFFF,
        fold_carries(s) == 0 <==> s == 0,
    decreases s,
{
    if s < 0x10000 {
    } else {
        let q = s / 0x10000;
        let r = s % 0x10000;
        lemma_fundamental_div_mod(s, 0x10000);
        lemma_mod_bound(s, 0x10000);
        let t = r + q;
        assert(q >= 1);
        assert(t < s);
        lemma_fold_carries_props(t);
        assert(s == 0xFFFF * q + t);
        lemma_mod_multiples_vanish(q, t, 0xFFFF);
    }
}

/// Two nonnegative sums with the same residue modulo 0xFFFF, zero on the
/// same side, fold to the same word.
proof fn lemma_fold_carries_congruent(a: int, b: int)
    requires
        a >= 0,
        b >= 0,
        a % 0xFFFF == b % 0xFFFF,
        a == 0 <==> b == 0,
    ensures
        fold_carries(a) == fold_carries(b),
{
    lemma_fold_carries_props(a);
    lemma_fold_carries_props(b);
    let x = fold_carries(a);
    let y = fold_carries(b);
    if x < 0xFFFF {
        lemma_small_mod(x as nat, 0xFFFF);
    }
    if y < 0xFFFF {
        lemma_small_mod(y as nat, 0xFFFF);
    }
    if x == 0xFFFF || y == 0xFFFF {
        assert(0xFFFFint % 0xFFFF == 0) by {
            lemma_mod_multiples_vanish(1, 0, 0xFFFF);
        }
    }
}

/// An addend may be folded before the sum is: the final fold agrees.
proof fn lemma_fold_carries_add_left(a: int, b: int)
    requires
        a >= 0,
        b >= 0,
    ensures
        fold_carries(a + b) == fold_carries(fold_carries(a) + b),
{
    lemma_fold_carries_props(a);
    lemma_add_mod_noop(a, b, 0xFFFF);
    lemma_add_mod_noop(fold_carries(a), b, 0xFFFF);
    lemma_fold_carries_congruent(a + b, fold_carries(a) + b);
}

/// Computes the Internet checksum of `data` (RFC 1071): the buffer is
/// summed as big-endian 16-bit words, carries are folded back into the
/// low 16 bits, and the one's complement of the result is returned. An
/// odd-length buffer's final byte is the high byte of a word whose low
/// byte is zero. Pure and total: any buffer has a checksum.
pub fn calculate_checksum(data: &[u8]) -> (r: u16)
    ensures
        r as int == checksum_spec(data@),
{
    let len = data.len();
    let mut i: usize = 0;
    let mut sum: u32 = 0;
    while i < len
        invariant
            i <= len,
            len == data@.len(),
            sum < 0x10000,
            fold_carries(sum as int + sum_words_from(data@, i as int)) == fold_carries(
                sum_words(data@),
            ),
        decreases len - i,
    {
        let w: u32 = if i + 1 < len {
            (data[i] as u32) * 256 + (data[i + 1] as u32)
        } else {
            (data[i] as u32) * 256
        };
        let ghost sum0 = sum as int;
        let ghost inext: int = if i + 1 < len { i + 2 } else { len as int };
        proof {
            assert(w == word_at(data@, i as int));
            if i + 1 < len {
                assert(sum_words_from(data@, i as int) == w + sum_words_from(data@, inext));
            } else {
                assert(sum_words_from(data@, i as int + 2) == 0);
                assert(sum_words_from(data@, len as int) == 0);
                assert(sum_words_from(data@, i as int) == w + sum_words_from(data@, inext));
            }
        }
        sum = sum + w;
        if sum >= 0x10000 {
            let ghost sa = sum as int;
            sum = sum % 0x10000 + sum / 0x10000;
            proof {
                assert(fold_carries(sa) == fold_carries(sum as int));
            }
        }
        if sum >= 0x10000 {
            let ghost sb = sum as int;
            sum = sum % 0x10000 + sum / 0x10000;
            proof {
                assert(fold_carries(sb) == fold_carries(sum as int));
            }
        }
        proof {
            assert(sum as int == fold_carries(sum0 + w));
            lemma_sum_words_nonneg(data@, inext);
            lemma_fold_carries_add_left(sum0 + w, sum_words_from(data@, inext));
        }
        if i + 1 < len {
            i = i + 2;
        } else {
            i = len;
        }
    }
    assert(sum_words_from(data@, i as int) == 0);
    let r: u16 = !(sum as u16);
    proof {
        assert(sum < 0x10000 ==> (!(sum as u16)) == 0xFFFF - sum) by (bit_vector);
    }
    r
}

/// A byte buffer with the word at even index `off` replaced by the pair
/// `hi`, `lo`.
pub open spec fn with_word(data: Seq<u8>, off: int, hi: u8, lo: u8) -> Seq<u8> {
    data.update(off, hi).update(off + 1, lo)
}

proof fn lemma_sum_words_update_from(data: Seq<u8>, off: int, hi: u8, lo: u8, i: int)
    requires
        0 <= i,
        i % 2 == 0,
        0 <= off,
        off % 2 == 0,
        off + 1 < data.len(),
        data[off] == 0,
        data[off + 1] == 0,
    ensures
        sum_words_from(with_word(data, off, hi, lo), i) == sum_words_from(data, i) + if i <= off {
            hi * 256 + lo
        } else {
            0int
        },
    decreases data.len() - i + 2,
{
    let upd = with_word(data, off, hi, lo);
    if i >= data.len() {
    } else {
        lemma_sum_words_update_from(data, off, hi, lo, i + 2);
        if i == off {
            assert(word_at(upd, i) == hi * 256 + lo);
            assert(word_at(data, i) == 0);
        } else if i < off {
            assert(word_at(upd, i) == word_at(data, i));
        } else {
            assert(i >= off + 2);
            assert(word_at(upd, i) == word_at(data, i));
        }
    }
}

/// Writing a word into a zeroed field adds exactly its value to the
/// word sum.
proof fn lemma_sum_words_update(data: Seq<u8>, off: int, hi: u8, lo: u8)
    requires
        0 <= off,
        off % 2 == 0,
        off + 1 < data.len(),
        data[off] == 0,
        data[off + 1] == 0,
    ensures
        sum_words(with_word(data, off, hi, lo)) == sum_words(data) + hi * 256 + lo,
{
    lemma_sum_words_update_from(data, off, hi, lo, 0);
}

/// Round-trip validation law: writing a buffer's own checksum into a
/// zeroed 16-bit field makes the whole buffer checksum to zero.
pub proof fn lemma_checksum_insert_validates(data: Seq<u8>, off: int, hi: u8, lo: u8)
    requires
        data.len() % 2 == 0,
        0 <= off,
        off % 2 == 0,
        off + 1 < data.len(),
        data[off] == 0,
        data[off + 1] == 0,
        hi * 256 + lo == checksum_spec(data),
    ensures
        checksum_spec(with_word(data, off, hi, lo)) == 0,
{
    let s0 = sum_words(data);
    lemma_sum_words_nonneg(data, 0);
    lemma_fold_carries_props(s0);
    let c = 0xFFFF - fold_carries(s0);
    lemma_sum_words_update(data, off, hi, lo);
    let s1 = sum_words(with_word(data, off, hi, lo));
    assert(s1 == s0 + c);
    assert(s1 >= 0xFFFF);
    assert(s1 % 0xFFFF == 0xFFFFint % 0xFFFF) by {
        assert(s1 == 0xFFFF * 1 + (s0 - fold_carries(s0)));
        assert((s0 - fold_carries(s0)) % 0xFFFF == 0) by {
            lemma_fundamental_div_mod(s0, 0xFFFF);
            lemma_fundamental_div_mod(fold_carries(s0), 0xFFFF);
            assert(s0 - fold_carries(s0) == 0xFFFF * (s0 / 0xFFFF - fold_carries(s0) / 0xFFFF));
            lemma_mod_multiples_vanish(s0 / 0xFFFF - fold_carries(s0) / 0xFFFF, 0, 0xFFFF);
        }
        lemma_mod_multiples_vanish(1, s0 - fold_carries(s0), 0xFFFF);
        lemma_mod_multiples_vanish(1, 0, 0xFFFF);
    }
    lemma_fold_carries_congruent(s1, 0xFFFF);
}

/// Splits a 16-bit word into its big-endian byte pair.
fn u16_split(x: u16) -> (r: (u8, u8))
    ensures
        r.0 * 256 + r.1 == x,
{
    let hi: u8 = (x >> 8) as u8;
    let lo: u8 = (x & 0xff) as u8;
    proof {
        assert(((x >> 8) as u8) * 256 + ((x & 0xff) as u8) == x) by (bit_vector);
    }
    (hi, lo)
}

/// Zeroes the 16-bit field at even index `off`, computes the Internet
/// checksum of the whole buffer, and writes it back into the field,
/// big-endian. Afterwards the buffer checksums to zero.
pub fn checksum_insert(buffer: &mut Vec<u8>, off: usize)
    requires
        old(buffer)@.len() % 2 == 0,
        off % 2 == 0,
        off + 1 < old(buffer)@.len(),
    ensures
        final(buffer)@.len() == old(buffer)@.len(),
        forall|j: int|
            0 <= j < old(buffer)@.len() && j != off && j != off + 1 ==> final(buffer)@[j] == old(
                buffer,
            )@[j],
        ({
            let zeroed = old(buffer)@.update(off as int, 0u8).update(off as int + 1, 0u8);
            &&& final(buffer)@[off as int] * 256 + final(buffer)@[off as int + 1] == checksum_spec(
                zeroed,
            )
            &&& checksum_spec(final(buffer)@) == 0
        }),
{
    buffer.set(off, 0);
    buffer.set(off + 1, 0);
    let ghost zeroed = buffer@;
    let c = calculate_checksum(buffer.as_slice());
    let (hi, lo) = u16_split(c);
    buffer.set(off, hi);
    buffer.set(off + 1, lo);
    proof {
        assert(buffer@ =~= with_word(zeroed, off as int, hi, lo));
        lemma_checksum_insert_validates(zeroed, off as int, hi, lo);
    }
}

} // verus!
