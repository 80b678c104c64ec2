//! The executable digest engine, proved equal to the model.

use crate::model::INIT_H0;
use crate::model::INIT_H1;
use crate::model::INIT_H2;
use crate::model::INIT_H3;
use crate::model::Md5State;
use crate::model::lemma_fill_len;
use crate::model::lemma_fill_len_unique;
use crate::model::lemma_pad_len;
use crate::model::spec_bit_len;
use crate::model::spec_block_words;
use crate::model::spec_compress;
use crate::model::spec_fill_len;
use crate::model::spec_hex;
use crate::model::spec_hex_digit;
use crate::model::spec_le32;
use crate::model::spec_le64;
use crate::model::spec_md5;
use crate::model::spec_md5_hex;
use crate::model::spec_constant;
use crate::model::spec_mix;
use crate::model::spec_pad;
use crate::model::spec_rotl;
use crate::model::spec_round;
use crate::model::spec_rounds;
use crate::model::spec_shift;
use crate::model::spec_state_after;
use crate::model::spec_word_index;
use crate::model::spec_word_le;
use vstd::arithmetic::div_mod::lemma_fundamental_div_mod;
use vstd::prelude::*;
use vstd::slice::slice_index_get;
use vstd::slice::slice_subrange;

verus! {

/// The 32-bit word held by the first four bytes of `array`, least-significant
/// byte first.
pub fn as_u32_le(array: &[u8]) -> (r: u32)
    requires
        array@.len() >= 4,
    ensures
        r == spec_word_le(array@, 0),
{
    let b0 = *slice_index_get(array, 0) as u32;
    let b1 = *slice_index_get(array, 1) as u32;
    let b2 = *slice_index_get(array, 2) as u32;
    let b3 = *slice_index_get(array, 3) as u32;
    b0 + b1 * 0x100 + b2 * 0x1_0000 + b3 * 0x100_0000
}

/// Rotate a 32-bit word left by `n` bits, `n` strictly between 0 and 32.
pub fn rotl(x: u32, n: u32) -> (r: u32)
    requires
        1 <= n < 32,
    ensures
        r == spec_rotl(x, n),
{
    (x << n) | (x >> (32 - n))
}

/// The left-rotation amount of round `i`.
fn round_shift(i: usize) -> (r: u32)
    requires
        i < 64,
    ensures
        r == spec_shift(i as int),
        1 <= r < 32,
{
    let j = i % 4;
    if i < 16 {
        if j == 0 { 7 } else if j == 1 { 12 } else if j == 2 { 17 } else { 22 }
    } else if i < 32 {
        if j == 0 { 5 } else if j == 1 { 9 } else if j == 2 { 14 } else { 20 }
    } else if i < 48 {
        if j == 0 { 4 } else if j == 1 { 11 } else if j == 2 { 16 } else { 23 }
    } else {
        if j == 0 { 6 } else if j == 1 { 10 } else if j == 2 { 15 } else { 21 }
    }
}

/// The additive constant of round `i`.
fn round_constant(i: usize) -> (r: u32)
    requires
        i < 64,
    ensures
        r == spec_constant(i as int),
{
    if i == 0 { 0xd76aa478 } else if i == 1 { 0xe8c7b756 } else if i == 2 { 0x242070db }
    else if i == 3 { 0xc1bdceee } else if i == 4 { 0xf57c0faf } else if i == 5 { 0x4787c62a }
    else if i == 6 { 0xa8304613 } else if i == 7 { 0xfd469501 } else if i == 8 { 0x698098d8 }
    else if i == 9 { 0x8b44f7af } else if i == 10 { 0xffff5bb1 } else if i == 11 { 0x895cd7be }
    else if i == 12 { 0x6b901122 } else if i == 13 { 0xfd987193 } else if i == 14 { 0xa679438e }
    else if i == 15 { 0x49b40821 } else if i == 16 { 0xf61e2562 } else if i == 17 { 0xc040b340 }
    else if i == 18 { 0x265e5a51 } else if i == 19 { 0xe9b6c7aa } else if i == 20 { 0xd62f105d }
    else if i == 21 { 0x02441453 } else if i == 22 { 0xd8a1e681 } else if i == 23 { 0xe7d3fbc8 }
    else if i == 24 { 0x21e1cde6 } else if i == 25 { 0xc33707d6 } else if i == 26 { 0xf4d50d87 }
    else if i == 27 { 0x455a14ed } else if i == 28 { 0xa9e3e905 } else if i == 29 { 0xfcefa3f8 }
    else if i == 30 { 0x676f02d9 } else if i == 31 { 0x8d2a4c8a } else if i == 32 { 0xfffa3942 }
    else if i == 33 { 0x8771f681 } else if i == 34 { 0x6d9d6122 } else if i == 35 { 0xfde5380c }
    else if i == 36 { 0xa4beea44 } else if i == 37 { 0x4bdecfa9 } else if i == 38 { 0xf6bb4b60 }
    else if i == 39 { 0xbebfbc70 } else if i == 40 { 0x289b7ec6 } else if i == 41 { 0xeaa127fa }
    else if i == 42 { 0xd4ef3085 } else if i == 43 { 0x04881d05 } else if i == 44 { 0xd9d4d039 }
    else if i == 45 { 0xe6db99e5 } else if i == 46 { 0x1fa27cf8 } else if i == 47 { 0xc4ac5665 }
    else if i == 48 { 0xf4292244 } else if i == 49 { 0x432aff97 } else if i == 50 { 0xab9423a7 }
    else if i == 51 { 0xfc93a039 } else if i == 52 { 0x655b59c3 } else if i == 53 { 0x8f0ccc92 }
    else if i == 54 { 0xffeff47d } else if i == 55 { 0x85845dd1 } else if i == 56 { 0x6fa87e4f }
    else if i == 57 { 0xfe2ce6e0 } else if i == 58 { 0xa3014314 } else if i == 59 { 0x4e0811a1 }
    else if i == 60 { 0xf7537e82 } else if i == 61 { 0xbd3af235 } else if i == 62 { 0x2ad7d2bb }
    else { 0xeb86d391 }
}

/// Pad and frame a message: append the 0x80 marker, zero-fill to 8 bytes
/// short of a 64-byte boundary, then append the original length in bits as a
/// 64-bit little-endian integer.  The result is the padded buffer of the
/// model, and its length is a multiple of 64.
pub fn pad_message(msg: &[u8]) -> (p: Vec<u8>)
    requires
        msg@.len() + 72 <= usize::MAX,
    ensures
        p@ == spec_pad(msg@),
        p@.len() % 64 == 0,
{
    let ghost n = msg@.len();
    let mut p: Vec<u8> = Vec::new();
    let mut i: usize = 0;
    while i < msg.len()
        invariant
            i <= msg@.len(),
            p@ == msg@.take(i as int),
        decreases msg@.len() - i,
    {
        p.push(*slice_index_get(msg, i));
        assert(p@ =~= msg@.take(i + 1));
        i = i + 1;
    }
    assert(p@ =~= msg@);
    p.push(0x80);
    proof {
        lemma_fill_len(n);
        assert(p@ =~= msg@ + seq![0x80u8] + Seq::new(0, |j: int| 0u8));
    }
    while (p.len() + 8) % 64 != 0
        invariant
            n + 72 <= usize::MAX,
            n + 1 <= p@.len() <= n + 1 + spec_fill_len(n),
            spec_fill_len(n) < 64,
            (n + 9 + spec_fill_len(n)) % 64 == 0,
            p@ == msg@ + seq![0x80u8] + Seq::new((p@.len() - n - 1) as nat, |j: int| 0u8),
        decreases n + 1 + spec_fill_len(n) - p@.len(),
    {
        proof {
            // the guard rules out the full fill count, so one more zero fits
            assert(p@.len() - n - 1 < spec_fill_len(n));
        }
        p.push(0);
        assert(p@ =~= msg@ + seq![0x80u8] + Seq::new((p@.len() - n - 1) as nat, |j: int| 0u8));
    }
    proof {
        lemma_fill_len_unique(n, (p@.len() - n - 1) as nat);
        assert(p@.len() == n + 1 + spec_fill_len(n));
    }
    let bitlen: u64 = (msg.len() as u64).wrapping_mul(8);
    proof {
        assert(bitlen == spec_bit_len(n));
    }
    p.push((bitlen % 0x100) as u8);
    p.push(((bitlen / 0x100) % 0x100) as u8);
    p.push(((bitlen / 0x1_0000) % 0x100) as u8);
    p.push(((bitlen / 0x100_0000) % 0x100) as u8);
    p.push(((bitlen / 0x1_0000_0000) % 0x100) as u8);
    p.push(((bitlen / 0x100_0000_0000) % 0x100) as u8);
    p.push(((bitlen / 0x1_0000_0000_0000) % 0x100) as u8);
    p.push(((bitlen / 0x100_0000_0000_0000) % 0x100) as u8);
    proof {
        assert(spec_le64(bitlen) =~= seq![
            (bitlen % 0x100) as u8,
            ((bitlen / 0x100) % 0x100) as u8,
            ((bitlen / 0x1_0000) % 0x100) as u8,
            ((bitlen / 0x100_0000) % 0x100) as u8,
            ((bitlen / 0x1_0000_0000) % 0x100) as u8,
            ((bitlen / 0x100_0000_0000) % 0x100) as u8,
            ((bitlen / 0x1_0000_0000_0000) % 0x100) as u8,
            ((bitlen / 0x100_0000_0000_0000) % 0x100) as u8,
        ]);
        assert(p@ =~= spec_pad(msg@));
        lemma_pad_len(msg@);
    }
    p
}

/// One block's effect on the running state: 64 rounds over the sixteen block
/// words, then additive feedback of the working variables, modulo 2^32.
pub fn compress_block(s: Md5State, words: &[u32]) -> (r: Md5State)
    requires
        words@.len() == 16,
    ensures
        r == spec_compress(s, words@),
{
    let mut a: u32 = s.h0;
    let mut b: u32 = s.h1;
    let mut c: u32 = s.h2;
    let mut d: u32 = s.h3;
    let ghost t0 = (s.h0, s.h1, s.h2, s.h3);
    for i in 0..64
        invariant
            words@.len() == 16,
            ((a, b, c, d) == spec_rounds(words@, i as int, t0)),
    {
        let ghost prev = (a, b, c, d);
        let f: u32 = if i < 16 {
            (b & c) | (!b & d)
        } else if i < 32 {
            (d & b) | (!d & c)
        } else if i < 48 {
            b ^ c ^ d
        } else {
            c ^ (b | !d)
        };
        let g: usize = if i < 16 {
            i
        } else if i < 32 {
            (5 * i + 1) % 16
        } else if i < 48 {
            (3 * i + 5) % 16
        } else {
            (7 * i) % 16
        };
        let w: u32 = *slice_index_get(words, g);
        let rot: u32 = rotl(
            a.wrapping_add(f.wrapping_add(round_constant(i).wrapping_add(w))),
            round_shift(i),
        );
        let temp: u32 = d;
        d = c;
        c = b;
        b = b.wrapping_add(rot);
        a = temp;
        proof {
            assert(g as int == spec_word_index(i as int));
            assert(f == spec_mix(i as int, prev.1, prev.2, prev.3));
            assert((a, b, c, d) == spec_round(words@, i as int, prev));
        }
    }
    Md5State {
        h0: s.h0.wrapping_add(a),
        h1: s.h1.wrapping_add(b),
        h2: s.h2.wrapping_add(c),
        h3: s.h3.wrapping_add(d),
    }
}

/// Append a 32-bit word to `v` as 4 bytes, least-significant byte first.
fn push_le32(v: &mut Vec<u8>, x: u32)
    ensures
        final(v)@ == old(v)@ + spec_le32(x),
{
    v.push((x % 0x100) as u8);
    v.push(((x / 0x100) % 0x100) as u8);
    v.push(((x / 0x1_0000) % 0x100) as u8);
    v.push(((x / 0x100_0000) % 0x100) as u8);
    assert(v@ =~= old(v)@ + spec_le32(x));
}

/// The MD5 digest of a message: pad and frame it, fold every 64-byte block
/// into the running state, and emit the four state words as 16 bytes, each
/// word least-significant byte first.
pub fn md5(msg: &[u8]) -> (digest: Vec<u8>)
    requires
        msg@.len() + 72 <= usize::MAX,
    ensures
        digest@ == spec_md5(msg@),
        digest@.len() == 16,
{
    let p = pad_message(msg);
    proof {
        lemma_pad_len(msg@);
    }
    let mut state = Md5State { h0: INIT_H0, h1: INIT_H1, h2: INIT_H2, h3: INIT_H3 };
    let mut offset: usize = 0;
    while offset < p.len()
        invariant
            p@ == spec_pad(msg@),
            p@.len() <= usize::MAX,
            p@.len() % 64 == 0,
            offset <= p@.len(),
            offset % 64 == 0,
            state == spec_state_after(p@, offset as int / 64),
        decreases p@.len() - offset,
    {
        proof {
            // 64 divides the offset and the total length, so a full block remains
            lemma_fundamental_div_mod(offset as int, 64);
            lemma_fundamental_div_mod(p@.len() as int, 64);
            assert(offset + 64 <= p@.len());
        }
        let ghost blk = offset as int / 64;
        let mut words: Vec<u32> = Vec::new();
        let mut j: usize = 0;
        while j < 16
            invariant
                j <= 16,
                offset + 64 <= p@.len() <= usize::MAX,
                words@.len() == j,
                forall|t: int| 0 <= t < j ==> words@[t] == spec_word_le(p@, offset + 4 * t),
            decreases 16 - j,
        {
            let chunk = slice_subrange(p.as_slice(), offset + 4 * j, offset + 4 * j + 4);
            let w = as_u32_le(chunk);
            proof {
                assert(chunk@[0] == p@[offset + 4 * j as int]);
                assert(chunk@[1] == p@[offset + 4 * j as int + 1]);
                assert(chunk@[2] == p@[offset + 4 * j as int + 2]);
                assert(chunk@[3] == p@[offset + 4 * j as int + 3]);
            }
            words.push(w);
            j = j + 1;
        }
        state = compress_block(state, words.as_slice());
        proof {
            assert(words@ =~= spec_block_words(p@, blk));
            assert(state == spec_state_after(p@, blk + 1));
        }
        offset = offset + 64;
        proof {
            assert(offset as int / 64 == blk + 1);
        }
    }
    let mut digest: Vec<u8> = Vec::new();
    push_le32(&mut digest, state.h0);
    push_le32(&mut digest, state.h1);
    push_le32(&mut digest, state.h2);
    push_le32(&mut digest, state.h3);
    proof {
        assert(digest@ =~= spec_md5(msg@));
    }
    digest
}

/// The lowercase hexadecimal character of a value below 16.
fn hex_digit(d: u8) -> (c: char)
    requires
        d < 16,
    ensures
        c == spec_hex_digit(d as int),
{
    let b: u8 = if d < 10 {
        48 + d
    } else {
        87 + d
    };
    b as char
}

/// Relies on String::push: appends the given character to the end of the
/// string.
#[verifier::external_body]
fn push_char(s: &mut String, c: char)
    ensures
        final(s)@ == old(s)@.push(c),
{
    s.push(c);
}

/// The MD5 digest of a message rendered as 32 lowercase hexadecimal
/// characters, no prefix and no separators.
pub fn md5_hex(msg: &[u8]) -> (r: String)
    requires
        msg@.len() + 72 <= usize::MAX,
    ensures
        r@ == spec_md5_hex(msg@),
        r@.len() == 32,
{
    let digest = md5(msg);
    let mut r = String::new();
    let mut i: usize = 0;
    while i < 16
        invariant
            i <= 16,
            digest@.len() == 16,
            digest@ == spec_md5(msg@),
            r@.len() == 2 * i,
            forall|t: int| 0 <= t < 2 * i ==> r@[t] == spec_hex(digest@)[t],
        decreases 16 - i,
    {
        let b = digest[i];
        push_char(&mut r, hex_digit(b / 16));
        push_char(&mut r, hex_digit(b % 16));
        i = i + 1;
    }
    proof {
        assert(r@ =~= spec_hex(digest@));
    }
    r
}

} // verus!
