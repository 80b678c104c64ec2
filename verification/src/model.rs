//! Mathematical model of the MD5 digest.
//!
//! Everything here is specification: padding and framing, the view of the
//! padded buffer as little-endian 32-bit words, the 64-round compression of
//! one block, the fold of the running state over all blocks, and the
//! little-endian emission of the final state as 16 digest bytes and 32
//! lowercase hexadecimal characters.  The executable engine is proved to
//! return exactly these values.

use vstd::arithmetic::div_mod::lemma_fundamental_div_mod;
use vstd::arithmetic::div_mod::lemma_mod_add_multiples_vanish;
use vstd::arithmetic::div_mod::lemma_mod_division_less_than_divisor;
use vstd::arithmetic::div_mod::lemma_mod_multiples_basic;
use vstd::arithmetic::div_mod::lemma_small_mod;
use vstd::prelude::*;

verus! {

/// Initial values of the four running state words.
pub const INIT_H0: u32 = 0x67452301;

pub const INIT_H1: u32 = 0xefcdab89;

pub const INIT_H2: u32 = 0x98badcfe;

pub const INIT_H3: u32 = 0x10325476;

/// The running state: four 32-bit accumulators, set to fixed constants at the
/// start and updated once per 64-byte block by additive feedback.
#[derive(Clone, Copy, Debug, PartialEq, Eq, Structural)]
pub struct Md5State {
    pub h0: u32,
    pub h1: u32,
    pub h2: u32,
    pub h3: u32,
}

pub open spec fn spec_init_state() -> Md5State {
    Md5State { h0: INIT_H0, h1: INIT_H1, h2: INIT_H2, h3: INIT_H3 }
}

/// Number of zero fill bytes appended after the 0x80 marker for a message of
/// `n` bytes: the least count that leaves exactly 8 bytes to the next 64-byte
/// boundary, which is zero when `n % 64 == 55`.
pub open spec fn spec_fill_len(n: nat) -> nat {
    ((119 - (n % 64)) % 64) as nat
}

/// The original message length in bits, reduced to the 64 bits that the
/// length field can carry.
pub open spec fn spec_bit_len(n: nat) -> u64 {
    ((n * 8) % 0x1_0000_0000_0000_0000) as u64
}

/// A 64-bit value as 8 bytes, least-significant byte first.
pub open spec fn spec_le64(x: u64) -> Seq<u8> {
    seq![
        (x % 0x100) as u8,
        ((x / 0x100) % 0x100) as u8,
        ((x / 0x1_0000) % 0x100) as u8,
        ((x / 0x100_0000) % 0x100) as u8,
        ((x / 0x1_0000_0000) % 0x100) as u8,
        ((x / 0x100_0000_0000) % 0x100) as u8,
        ((x / 0x1_0000_0000_0000) % 0x100) as u8,
        ((x / 0x100_0000_0000_0000) % 0x100) as u8,
    ]
}

/// A 32-bit value as 4 bytes, least-significant byte first.
pub open spec fn spec_le32(x: u32) -> Seq<u8> {
    seq![
        (x % 0x100) as u8,
        ((x / 0x100) % 0x100) as u8,
        ((x / 0x1_0000) % 0x100) as u8,
        ((x / 0x100_0000) % 0x100) as u8,
    ]
}

/// The padded buffer: the message, one 0x80 marker byte, the zero fill, and
/// the original bit length as a 64-bit little-endian integer.  Its length is
/// always a multiple of 64.
pub open spec fn spec_pad(m: Seq<u8>) -> Seq<u8> {
    m + seq![0x80u8] + Seq::new(spec_fill_len(m.len()), |i: int| 0u8)
        + spec_le64(spec_bit_len(m.len()))
}

/// The fill count leaves exactly 8 bytes to the next 64-byte boundary, and is
/// less than a full block.
pub proof fn lemma_fill_len(n: nat)
    ensures
        spec_fill_len(n) < 64,
        (n + 9 + spec_fill_len(n)) % 64 == 0,
{
    let r = n % 64;
    lemma_mod_division_less_than_divisor(n as int, 64);
    lemma_fundamental_div_mod(n as int, 64);
    if r <= 55 {
        lemma_mod_add_multiples_vanish(55 - r, 64);
        lemma_small_mod((55 - r) as nat, 64);
        assert(spec_fill_len(n) == 55 - r);
        assert(n + 9 + spec_fill_len(n) == 64 * (n as int / 64) + 64);
        lemma_mod_multiples_basic(n as int / 64 + 1, 64);
        assert(64 * (n as int / 64) + 64 == (n as int / 64 + 1) * 64) by (nonlinear_arith);
    } else {
        lemma_small_mod((119 - r) as nat, 64);
        assert(spec_fill_len(n) == 119 - r);
        assert(n + 9 + spec_fill_len(n) == 64 * (n as int / 64) + 128);
        lemma_mod_multiples_basic(n as int / 64 + 2, 64);
        assert(64 * (n as int / 64) + 128 == (n as int / 64 + 2) * 64) by (nonlinear_arith);
    }
}

/// No other fill count below 64 reaches a boundary with 8 bytes to spare.
pub proof fn lemma_fill_len_unique(n: nat, z: nat)
    requires
        z < 64,
        (n + 9 + z) % 64 == 0,
    ensures
        z == spec_fill_len(n),
{
    lemma_fill_len(n);
    let zf = spec_fill_len(n);
    lemma_fundamental_div_mod((n + 9 + z) as int, 64);
    lemma_fundamental_div_mod((n + 9 + zf) as int, 64);
}

/// The padded buffer's length: the message, the marker, the fill, and the
/// 8-byte length field; always a multiple of 64 and at least one block.
pub proof fn lemma_pad_len(m: Seq<u8>)
    ensures
        spec_pad(m).len() == m.len() + 9 + spec_fill_len(m.len()),
        spec_pad(m).len() % 64 == 0,
        64 <= spec_pad(m).len() <= m.len() + 72,
{
    lemma_fill_len(m.len());
    if m.len() + 9 + spec_fill_len(m.len()) < 64 {
        lemma_small_mod((m.len() + 9 + spec_fill_len(m.len())) as nat, 64);
    }
}

/// The 32-bit word at byte offset `k`, least-significant byte first.
pub open spec fn spec_word_le(s: Seq<u8>, k: int) -> u32
    recommends
        0 <= k,
        k + 4 <= s.len(),
{
    (s[k] + s[k + 1] * 0x100 + s[k + 2] * 0x1_0000 + s[k + 3] * 0x100_0000) as u32
}

/// Block `b` of the padded buffer as sixteen little-endian 32-bit words.
pub open spec fn spec_block_words(p: Seq<u8>, b: int) -> Seq<u32> {
    Seq::new(16, |i: int| spec_word_le(p, b * 64 + 4 * i))
}

/// The nonlinear mixing function of round `i`, one function per 16-round
/// phase.
pub open spec fn spec_mix(i: int, b: u32, c: u32, d: u32) -> u32
    recommends
        0 <= i < 64,
{
    if i < 16 {
        (b & c) | (!b & d)
    } else if i < 32 {
        (d & b) | (!d & c)
    } else if i < 48 {
        b ^ c ^ d
    } else {
        c ^ (b | !d)
    }
}

/// Which of the sixteen block words round `i` reads; always in [0, 16).
pub open spec fn spec_word_index(i: int) -> int
    recommends
        0 <= i < 64,
{
    if i < 16 {
        i
    } else if i < 32 {
        (5 * i + 1) % 16
    } else if i < 48 {
        (3 * i + 5) % 16
    } else {
        (7 * i) % 16
    }
}

/// The left-rotation amount of round `i`: each phase cycles through four
/// amounts; always in [1, 32).
pub open spec fn spec_shift(i: int) -> u32
    recommends
        0 <= i < 64,
{
    let j = i % 4;
    if i < 16 {
        if j == 0 { 7 } else if j == 1 { 12 } else if j == 2 { 17 } else { 22 }
    } else if i < 32 {
        if j == 0 { 5 } else if j == 1 { 9 } else if j == 2 { 14 } else { 20 }
    } else if i < 48 {
        if j == 0 { 4 } else if j == 1 { 11 } else if j == 2 { 16 } else { 23 }
    } else {
        if j == 0 { 6 } else if j == 1 { 10 } else if j == 2 { 15 } else { 21 }
    }
}

/// Rotate a 32-bit word left by `n` bits.
pub open spec fn spec_rotl(x: u32, n: u32) -> u32
    recommends
        0 < n < 32,
{
    (x << n) | (x >> (32 - n) as u32)
}

/// One round of the compression function on the working variables
/// `(a, b, c, d)`: the new `b` absorbs `a`, the round's mixing function, the
/// round's additive constant, and one block word, rotated left; the other
/// three variables shift along.  All additions are modulo 2^32.
pub open spec fn spec_round(blk: Seq<u32>, i: int, t: (u32, u32, u32, u32)) -> (u32, u32, u32, u32)
    recommends
        0 <= i < 64,
        blk.len() == 16,
{
    let f = spec_mix(i, t.1, t.2, t.3);
    let w = blk[spec_word_index(i)];
    let rot = spec_rotl(t.0.wrapping_add(f.wrapping_add(spec_constant(i).wrapping_add(w))), spec_shift(i));
    (t.3, t.1.wrapping_add(rot), t.1, t.2)
}

/// The working variables after the first `n` rounds on block `blk`, starting
/// from `t`.
pub open spec fn spec_rounds(blk: Seq<u32>, n: int, t: (u32, u32, u32, u32)) -> (u32, u32, u32, u32)
    recommends
        0 <= n <= 64,
        blk.len() == 16,
    decreases n,
{
    if n <= 0 {
        t
    } else {
        spec_round(blk, n - 1, spec_rounds(blk, n - 1, t))
    }
}

/// One block's effect on the running state: 64 rounds from the state, then
/// additive feedback of the result, modulo 2^32.
pub open spec fn spec_compress(s: Md5State, blk: Seq<u32>) -> Md5State
    recommends
        blk.len() == 16,
{
    let t = spec_rounds(blk, 64, (s.h0, s.h1, s.h2, s.h3));
    Md5State {
        h0: s.h0.wrapping_add(t.0),
        h1: s.h1.wrapping_add(t.1),
        h2: s.h2.wrapping_add(t.2),
        h3: s.h3.wrapping_add(t.3),
    }
}

/// The running state after the first `n` blocks of the padded buffer `p`.
pub open spec fn spec_state_after(p: Seq<u8>, n: int) -> Md5State
    decreases n,
{
    if n <= 0 {
        spec_init_state()
    } else {
        spec_compress(spec_state_after(p, n - 1), spec_block_words(p, n - 1))
    }
}

/// The MD5 digest of a message: the running state after all blocks of the
/// padded buffer, each word emitted least-significant byte first.
pub open spec fn spec_md5(m: Seq<u8>) -> Seq<u8> {
    let p = spec_pad(m);
    let s = spec_state_after(p, p.len() as int / 64);
    spec_le32(s.h0) + spec_le32(s.h1) + spec_le32(s.h2) + spec_le32(s.h3)
}

/// The lowercase hexadecimal character for a value in [0, 16).
pub open spec fn spec_hex_digit(d: int) -> char
    recommends
        0 <= d < 16,
{
    if d < 10 {
        (48 + d) as char
    } else {
        (87 + d) as char
    }
}

/// A byte sequence as lowercase hexadecimal characters, two per byte, the
/// high digit first.
pub open spec fn spec_hex(bytes: Seq<u8>) -> Seq<char> {
    Seq::new(
        bytes.len() * 2,
        |i: int|
            if i % 2 == 0 {
                spec_hex_digit((bytes[i / 2] / 16) as int)
            } else {
                spec_hex_digit((bytes[i / 2] % 16) as int)
            },
    )
}

/// The digest rendered as 32 lowercase hexadecimal characters.
pub open spec fn spec_md5_hex(m: Seq<u8>) -> Seq<char> {
    spec_hex(spec_md5(m))
}

/// The additive constant of round `i`, the 64 fixed 32-bit values of the
/// algorithm.
pub open spec fn spec_constant(i: int) -> u32
    recommends
        0 <= i < 64,
{
    if i == 0 { 0xd76aa478 } else if i == 1 { 0xe8c7b756 } else if i == 2 { 0x242070db }
    else if i == 3 { 0xc1bdceee } else if i == 4 { 0xf57c0faf } else if i == 5 { 0x4787c62a }
    else if i == 6 { 0xa8304613 } else if i == 7 { 0xfd469501 } else if i == 8 { 0x698098d8 }
    else if i == 9 { 0x8b44f7af } else if i == 10 { 0xffff5bb1 } else if i == 11 { 0x895cd7be }
    else if i == 12 { 0x6b901122 } else if i == 13 { 0xfd987193 } else if i == 14 { 0xa679438e }
    else if i == 15 { 0x49b40821 } else if i == 16 { 0xf61e2562 } else if i == 17 { 0xc040b340 }
    else if i == 18 { 0x265e5a51 } else if i == 19 { 0xe9b6c7aa } else if i == 20 { 0xd62f105d }
    else if i == 21 { 0x02441453 } else if i == 22 { 0xd8a1e681 } else if i == 23 { 0xe7d3fbc8 }
    else if i == 24 { 0x21e1cde6 } else if i == 25 { 0xc33707d6 } else if i == 26 { 0xf4d50d87 }
    else if i == 27 { 0x455a14ed } else if i == 28 { 0xa9e3e905 } else if i == 29 { 0xfcefa3f8 }
    else if i == 30 { 0x676f02d9 } else if i == 31 { 0x8d2a4c8a } else if i == 32 { 0xfffa3942 }
    else if i == 33 { 0x8771f681 } else if i == 34 { 0x6d9d6122 } else if i == 35 { 0xfde5380c }
    else if i == 36 { 0xa4beea44 } else if i == 37 { 0x4bdecfa9 } else if i == 38 { 0xf6bb4b60 }
    else if i == 39 { 0xbebfbc70 } else if i == 40 { 0x289b7ec6 } else if i == 41 { 0xeaa127fa }
    else if i == 42 { 0xd4ef3085 } else if i == 43 { 0x04881d05 } else if i == 44 { 0xd9d4d039 }
    else if i == 45 { 0xe6db99e5 } else if i == 46 { 0x1fa27cf8 } else if i == 47 { 0xc4ac5665 }
    else if i == 48 { 0xf4292244 } else if i == 49 { 0x432aff97 } else if i == 50 { 0xab9423a7 }
    else if i == 51 { 0xfc93a039 } else if i == 52 { 0x655b59c3 } else if i == 53 { 0x8f0ccc92 }
    else if i == 54 { 0xffeff47d } else if i == 55 { 0x85845dd1 } else if i == 56 { 0x6fa87e4f }
    else if i == 57 { 0xfe2ce6e0 } else if i == 58 { 0xa3014314 } else if i == 59 { 0x4e0811a1 }
    else if i == 60 { 0xf7537e82 } else if i == 61 { 0xbd3af235 } else if i == 62 { 0x2ad7d2bb }
    else { 0xeb86d391 }
}

} // verus!
