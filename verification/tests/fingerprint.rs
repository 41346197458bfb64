use epubstream::fingerprint::{
    calculate_book_hash, fingerprint_input, length_bytes, to_hex, HEAD_LIMIT,
};

fn pattern(length: usize) -> Vec<u8> {
    (0..length).map(|i| ((i * 7 + 3) % 256) as u8).collect()
}

#[test]
fn length_is_written_least_significant_byte_first() {
    assert_eq!(length_bytes(0), vec![0; 8]);
    assert_eq!(length_bytes(1), vec![1, 0, 0, 0, 0, 0, 0, 0]);
    assert_eq!(length_bytes(0x0102030405060708), vec![8, 7, 6, 5, 4, 3, 2, 1]);
    assert_eq!(length_bytes(u64::MAX), vec![255; 8]);
    assert_eq!(length_bytes(1 << 40), (1u64 << 40).to_le_bytes().to_vec());
    assert_eq!(length_bytes(8192), vec![0, 32, 0, 0, 0, 0, 0, 0]);
}

#[test]
fn hex_text_has_two_lower_case_digits_for_each_byte() {
    assert_eq!(to_hex(&[]), "");
    assert_eq!(to_hex(&[0x00, 0xff, 0x1a, 0xa1, 0x09, 0x90]), "00ff1aa10990");
    assert_eq!(to_hex(&[0xde, 0xad, 0xbe, 0xef]), "deadbeef");
    let every: Vec<u8> = (0..=255).collect();
    let expected: String = every.iter().map(|byte| format!("{:02x}", byte)).collect();
    assert_eq!(to_hex(&every), expected);
}

#[test]
fn digested_data_is_the_head_and_the_length() {
    assert_eq!(fingerprint_input(b"abc", 3), vec![b'a', b'b', b'c', 3, 0, 0, 0, 0, 0, 0, 0]);
    assert_eq!(fingerprint_input(b"", 0), vec![0; 8]);
    assert_eq!(fingerprint_input(b"PK", 258), vec![b'P', b'K', 2, 1, 0, 0, 0, 0, 0, 0]);
}

#[test]
fn only_the_first_bytes_of_the_head_are_digested() {
    assert_eq!(HEAD_LIMIT, 8192);
    let long = pattern(10_000);
    let data = fingerprint_input(&long, 10_000);
    assert_eq!(data.len(), 8192 + 8);
    assert_eq!(&data[..8192], &long[..8192]);
    assert_eq!(&data[8192..], &10_000u64.to_le_bytes());

    let exact = pattern(8192);
    assert_eq!(fingerprint_input(&exact, 8192).len(), 8192 + 8);
    let short = pattern(8191);
    assert_eq!(fingerprint_input(&short, 8191).len(), 8191 + 8);
}

#[test]
fn book_hash_of_known_files() {
    assert_eq!(calculate_book_hash(b"abc", 3), "e58e96f6a1864258fc0f25148e81c086");
    assert_eq!(calculate_book_hash(b"", 0), "7dea362b3fac8e00956a4952a3d4f474");
    assert_eq!(calculate_book_hash(b"PK\x03\x04", 1 << 40), "5c15ce11f931f8f7e387c89ea2846f4e");
    assert_eq!(calculate_book_hash(&pattern(10_000), 10_000), "f0d493584bd40ad3c3738b3c6efef4e6");
}

#[test]
fn book_hash_ignores_what_lies_behind_the_head() {
    let long = pattern(10_000);
    assert_eq!(calculate_book_hash(&long, 10_000), calculate_book_hash(&long[..8192], 10_000));
    assert_ne!(calculate_book_hash(&long, 10_000), calculate_book_hash(&long[..8191], 10_000));
    assert_ne!(calculate_book_hash(&long, 10_000), calculate_book_hash(&long, 10_001));
}

#[test]
fn book_hash_is_the_digest_of_head_and_length_in_hex() {
    for (head, size) in [(pattern(0), 0u64), (pattern(100), 100), (pattern(9000), 123_456_789)] {
        let kept = head.len().min(8192);
        let mut data = head[..kept].to_vec();
        data.extend_from_slice(&size.to_le_bytes());
        let digest = md5::compute(&data);
        assert_eq!(calculate_book_hash(&head, size), format!("{:x}", digest));
        assert_eq!(calculate_book_hash(&head, size).len(), 32);
    }
}
