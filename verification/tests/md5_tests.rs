use md5_digest::engine::as_u32_le;
use md5_digest::engine::compress_block;
use md5_digest::engine::md5;
use md5_digest::engine::md5_hex;
use md5_digest::engine::pad_message;
use md5_digest::engine::rotl;
use md5_digest::model::Md5State;

fn bit_difference(a: &[u8], b: &[u8]) -> u32 {
    assert_eq!(a.len(), b.len());
    let mut count: u32 = 0;
    for i in 0..a.len() {
        count += (a[i] ^ b[i]).count_ones();
    }
    count
}

#[test]
fn digest_is_16_bytes_and_32_hex_chars() {
    let inputs: Vec<&[u8]> = vec![b"", b"a", b"abc", b"0123456789", &[0u8; 200]];
    for input in inputs {
        assert_eq!(md5(input).len(), 16);
        let hex = md5_hex(input);
        assert_eq!(hex.len(), 32);
        assert!(hex.chars().all(|c| c.is_ascii_hexdigit() && !c.is_ascii_uppercase()));
    }
}

#[test]
fn repeated_calls_give_identical_digests() {
    let input = b"determinism check";
    assert_eq!(md5(input), md5(input));
    assert_eq!(md5_hex(input), md5_hex(input));
}

#[test]
fn empty_input_known_answer() {
    assert_eq!(md5_hex(b""), "d41d8cd98f00b204e9800998ecf8427e");
}

#[test]
fn abc_known_answer() {
    assert_eq!(md5_hex(b"abc"), "900150983cd24fb0d6963f7d28e17f72");
}

#[test]
fn quick_fox_known_answer() {
    assert_eq!(
        md5_hex(b"The quick brown fox jumps over the lazy dog"),
        "9e107d9d372bb6826bd81d3542a419d6",
    );
}

#[test]
fn boundary_length_55_single_block() {
    let input = [b'a'; 55];
    assert_eq!(pad_message(&input).len(), 64);
    assert_eq!(md5_hex(&input), "ef1772b6dff9a122358552954ad0df65");
}

#[test]
fn boundary_length_56_extra_block() {
    let input = [b'a'; 56];
    assert_eq!(pad_message(&input).len(), 128);
    assert_eq!(md5_hex(&input), "3b0c8ac703f828b04c6c197006d17218");
}

#[test]
fn avalanche_on_one_flipped_bit() {
    // "abb" is "abc" with the lowest bit of its last byte flipped
    let d1 = md5(b"abc");
    let d2 = md5(b"abb");
    assert!(bit_difference(&d1, &d2) >= 32);
}

#[test]
fn recomputation_equals_cached_reference() {
    let input = b"cache me";
    let cached = md5(input);
    assert_eq!(md5(input), cached);
    assert_eq!(md5(input), cached);
}

#[test]
fn padding_structure_of_empty_message() {
    let padded = pad_message(b"");
    assert_eq!(padded.len(), 64);
    assert_eq!(padded[0], 0x80);
    assert!(padded[1..64].iter().all(|&b| b == 0));
}

#[test]
fn padding_records_bit_length_little_endian() {
    let padded = pad_message(b"abc");
    assert_eq!(padded.len(), 64);
    assert_eq!(&padded[0..3], b"abc");
    assert_eq!(padded[3], 0x80);
    assert!(padded[4..56].iter().all(|&b| b == 0));
    assert_eq!(&padded[56..64], &[24, 0, 0, 0, 0, 0, 0, 0]);
}

#[test]
fn as_u32_le_reads_least_significant_byte_first() {
    assert_eq!(as_u32_le(&[0x78, 0x56, 0x34, 0x12]), 0x12345678);
    assert_eq!(as_u32_le(&[0xff, 0, 0, 0]), 0xff);
    assert_eq!(as_u32_le(&[0, 0, 0, 0xff]), 0xff000000);
}

#[test]
fn rotl_rotates_within_32_bits() {
    assert_eq!(rotl(1, 1), 2);
    assert_eq!(rotl(0x8000_0000, 1), 1);
    assert_eq!(rotl(0x0123_4567, 8), 0x2345_6701);
}

#[test]
fn compress_block_of_padded_empty_message() {
    let init = Md5State { h0: 0x67452301, h1: 0xefcdab89, h2: 0x98badcfe, h3: 0x10325476 };
    let mut words = [0u32; 16];
    words[0] = 0x80;
    let out = compress_block(init, &words);
    assert_eq!(out.h0, 0xd98c1dd4);
    assert_eq!(out.h1, 0x04b2008f);
    assert_eq!(out.h2, 0x980980e9);
    assert_eq!(out.h3, 0x7e42f8ec);
}
