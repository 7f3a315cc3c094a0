use jellofin::idhash::{id_from_digest, id_hash};

#[test]
fn test_id_hash_deterministic() {
    let input = "test string";
    let hash1 = id_hash(input);
    let hash2 = id_hash(input);
    assert_eq!(hash1, hash2, "Hash should be deterministic");
}

#[test]
fn test_id_hash_length() {
    let hash = id_hash("any string");
    assert_eq!(hash.len(), 20, "Hash should be 20 characters long");
}

#[test]
fn test_id_hash_different_inputs() {
    let hash1 = id_hash("input1");
    let hash2 = id_hash("input2");
    assert_ne!(hash1, hash2, "Different inputs should produce different hashes");
}

#[test]
fn test_id_hash_base62_chars() {
    let hash = id_hash("test");
    for c in hash.chars() {
        assert!(
            c.is_ascii_alphanumeric(),
            "Hash should only contain alphanumeric characters"
        );
    }
}

#[test]
fn id_from_digest_of_zeros_is_all_zero_digits() {
    let digest = [0u8; 32];
    assert_eq!(id_from_digest(&digest), "00000000000000000000");
}

#[test]
fn id_from_digest_drops_the_low_nine_bits() {
    // The first 16 bytes spell 512: the number left after the shift is 1.
    let mut digest = [0u8; 32];
    digest[14] = 2;
    assert_eq!(id_from_digest(&digest), "10000000000000000000");
    // 511 is lost entirely.
    let mut low = [0u8; 32];
    low[14] = 1;
    low[15] = 255;
    assert_eq!(id_from_digest(&low), "00000000000000000000");
}

#[test]
fn id_from_digest_writes_base_62_lowest_digit_first() {
    // (10 + 36 * 62) * 512 = 0x118400
    let mut digest = [0u8; 32];
    digest[13] = 0x11;
    digest[14] = 0x84;
    digest[15] = 0x00;
    assert_eq!(id_from_digest(&digest), "Aa000000000000000000");
    // bytes after the sixteenth do not count
    digest[16] = 0xff;
    digest[31] = 0xff;
    assert_eq!(id_from_digest(&digest), "Aa000000000000000000");
}

#[test]
fn id_from_digest_of_all_ones() {
    // (2^128 - 1) >> 9 = 2^119 - 1, in base 62, lowest digit first.
    let digest = [0xffu8; 32];
    let mut n: u128 = (1u128 << 119) - 1;
    let mut want = String::new();
    let digits = "0123456789ABCDEFGHIJKLMNOPQRSTUVWXYZabcdefghijklmnopqrstuvwxyz";
    for _ in 0..20 {
        want.push(digits.as_bytes()[(n % 62) as usize] as char);
        n /= 62;
    }
    assert_eq!(id_from_digest(&digest), want);
}

#[test]
fn id_hash_of_known_inputs() {
    // SHA-256("") starts with e3b0c442 98fc1c14 9afbf4c8 996fb924.
    let first: u128 = 0xe3b0c44298fc1c149afbf4c8996fb924;
    let mut n = first >> 9;
    let digits = "0123456789ABCDEFGHIJKLMNOPQRSTUVWXYZabcdefghijklmnopqrstuvwxyz";
    let mut want = String::new();
    for _ in 0..20 {
        want.push(digits.as_bytes()[(n % 62) as usize] as char);
        n /= 62;
    }
    assert_eq!(id_hash(""), want);
    assert_ne!(id_hash("a"), id_hash(""));
}
