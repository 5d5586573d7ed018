use gpukit::bytes::{decode_words, encode_words};

#[test]
fn words_serialize_little_endian() {
    assert_eq!(encode_words(&[0x0403_0201]), vec![1, 2, 3, 4]);
    assert_eq!(encode_words(&[0xFFFF_0000, 7]), vec![0, 0, 0xFF, 0xFF, 7, 0, 0, 0]);
}

#[test]
fn bytes_deserialize_little_endian() {
    assert_eq!(decode_words(&[1, 2, 3, 4]), vec![0x0403_0201]);
}

#[test]
fn trailing_bytes_beyond_the_last_word_are_ignored() {
    assert_eq!(decode_words(&[1, 0, 0, 0, 9, 9]), vec![1]);
}

#[test]
fn encode_then_decode_is_identity() {
    let words: Vec<u32> = (0..100).map(|i| i * 0x0101_0101).collect();
    assert_eq!(decode_words(&encode_words(&words)), words);
}

#[test]
fn empty_sequences_round_trip() {
    assert_eq!(encode_words(&[]), Vec::<u8>::new());
    assert_eq!(decode_words(&[]), Vec::<u32>::new());
}
