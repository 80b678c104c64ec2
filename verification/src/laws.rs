//! Properties that hold of every input, proved against the model.

use crate::model::lemma_fill_len;
use crate::model::lemma_pad_len;
use crate::model::spec_bit_len;
use crate::model::spec_fill_len;
use crate::model::spec_le64;
use crate::model::spec_md5;
use crate::model::spec_md5_hex;
use crate::model::spec_pad;
use crate::model::spec_shift;
use crate::model::spec_word_index;
use vstd::arithmetic::div_mod::lemma_mod_self_0;
use vstd::arithmetic::div_mod::lemma_small_mod;
use vstd::prelude::*;

verus! {

/// Every digest is exactly 16 bytes, and its rendering exactly 32 hexadecimal
/// characters, whatever the input.
pub proof fn lemma_digest_length(m: Seq<u8>)
    ensures
        spec_md5(m).len() == 16,
        spec_md5_hex(m).len() == 32,
{
}

/// Every character of the rendering is a lowercase hexadecimal digit.
pub proof fn lemma_hex_lowercase(m: Seq<u8>)
    ensures
        forall|i: int|
            0 <= i < 32 ==> ('0' <= #[trigger] spec_md5_hex(m)[i] <= '9' || 'a' <= spec_md5_hex(
                m,
            )[i] <= 'f'),
{
}

/// Determinism: two equal byte sequences have equal digests, so repeated
/// computation over the same input always reproduces the same value.
pub proof fn lemma_deterministic(m1: Seq<u8>, m2: Seq<u8>)
    requires
        m1 == m2,
    ensures
        spec_md5(m1) == spec_md5(m2),
        spec_md5_hex(m1) == spec_md5_hex(m2),
{
}

/// The padded buffer keeps its invariants for every message: it begins with
/// the message, the 0x80 marker follows, its length is a multiple of 64, and
/// its final 8 bytes are the original bit length in little-endian order.  At
/// the padding boundary, a message of 55 bytes modulo 64 needs no zero fill
/// at all, while one of 56 bytes modulo 64 forces a whole extra block.
pub proof fn lemma_padded_buffer(m: Seq<u8>)
    ensures
        spec_pad(m).len() % 64 == 0,
        64 <= spec_pad(m).len() <= m.len() + 72,
        spec_pad(m).take(m.len() as int) == m,
        spec_pad(m)[m.len() as int] == 0x80u8,
        spec_pad(m).skip(spec_pad(m).len() - 8) == spec_le64(spec_bit_len(m.len())),
        m.len() % 64 == 55 ==> spec_pad(m).len() == m.len() + 9,
        m.len() % 64 == 56 ==> spec_pad(m).len() == m.len() + 72,
{
    lemma_pad_len(m);
    lemma_fill_len(m.len());
    assert(spec_pad(m).take(m.len() as int) =~= m);
    assert(spec_pad(m).skip(spec_pad(m).len() - 8) =~= spec_le64(spec_bit_len(m.len())));
    if m.len() % 64 == 55 {
        lemma_mod_self_0(64);
        assert(spec_fill_len(m.len()) == 0);
    }
    if m.len() % 64 == 56 {
        lemma_small_mod(63, 64);
        assert(spec_fill_len(m.len()) == 63);
    }
}

/// Each round reads a word index inside the sixteen-word block and rotates by
/// an amount inside the 32-bit word, so no round can index or shift out of
/// range.
pub proof fn lemma_round_parameters_in_range(i: int)
    requires
        0 <= i < 64,
    ensures
        0 <= spec_word_index(i) < 16,
        1 <= spec_shift(i) < 32,
{
}

} // verus!
