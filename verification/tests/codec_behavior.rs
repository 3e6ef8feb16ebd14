use ultralogi::codec::{decode_words, encode_words};
use ultralogi::errors::PipelineError;

#[test]
fn encode_writes_header_then_arrays_little_endian() {
    let a: Vec<u32> = vec![1, 2];
    let b: Vec<u32> = vec![0xAABB_CCDD];
    let bytes = encode_words(2, &a, &b);
    let expected: Vec<u8> = vec![
        2, 0, 0, 0, // count
        1, 0, 0, 0, // a[0]
        2, 0, 0, 0, // a[1]
        0xDD, 0xCC, 0xBB, 0xAA, // b[0]
    ];
    assert_eq!(bytes, expected);
    assert_eq!(bytes.len(), 4 + 4 * a.len() + 4 * b.len());
}

#[test]
fn decode_round_trips_single_word_rows() {
    let a: Vec<u32> = vec![10, 20, 30];
    let b: Vec<u32> = vec![7, 8, 9];
    let bytes = encode_words(3, &a, &b);
    let (count, da, db) = decode_words(&bytes, 1, 1).unwrap();
    assert_eq!(count, 3);
    assert_eq!(da, a);
    assert_eq!(db, b);
}

#[test]
fn decode_round_trips_four_word_rows() {
    let a: Vec<u32> = vec![1, 2, 3, 4, 5, 6, 7, 8];
    let b: Vec<u32> = vec![9, 10, 11, 12, 13, 14, 15, 16];
    let bytes = encode_words(2, &a, &b);
    let (count, da, db) = decode_words(&bytes, 4, 4).unwrap();
    assert_eq!(count, 2);
    assert_eq!(da, a);
    assert_eq!(db, b);
}

#[test]
fn decode_round_trips_empty_arrays() {
    let a: Vec<u32> = Vec::new();
    let b: Vec<u32> = Vec::new();
    let bytes = encode_words(0, &a, &b);
    assert_eq!(bytes, vec![0, 0, 0, 0]);
    let (count, da, db) = decode_words(&bytes, 4, 4).unwrap();
    assert_eq!(count, 0);
    assert!(da.is_empty());
    assert!(db.is_empty());
}

#[test]
fn decode_rejects_buffer_shorter_than_header() {
    let bytes: Vec<u8> = vec![1, 2, 3];
    let r = decode_words(&bytes, 1, 1);
    assert!(matches!(r, Err(PipelineError::MalformedBuffer)));
}

#[test]
fn decode_rejects_count_larger_than_payload() {
    // header says 5 rows of one word each per array, but no payload follows
    let bytes: Vec<u8> = vec![5, 0, 0, 0];
    let r = decode_words(&bytes, 1, 1);
    assert!(matches!(r, Err(PipelineError::MalformedBuffer)));
}

#[test]
fn decode_takes_exact_slices_and_ignores_trailing_bytes() {
    let a: Vec<u32> = vec![42];
    let b: Vec<u32> = vec![43];
    let mut bytes = encode_words(1, &a, &b);
    bytes.push(0xEE);
    let (count, da, db) = decode_words(&bytes, 1, 1).unwrap();
    assert_eq!(count, 1);
    assert_eq!(da, vec![42]);
    assert_eq!(db, vec![43]);
}
