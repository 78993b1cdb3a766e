use pastebin::{
    base62_digit, derive_key, generate_id, hex_prefix, keys_match, IdAllocator, Secret, ID_LEN,
    MAX_ID_LEN,
};

fn is_base62(s: &str) -> bool {
    s.chars().all(|c| c.is_ascii_alphanumeric())
}

fn is_lower_hex(s: &str) -> bool {
    s.chars().all(|c| c.is_ascii_digit() || ('a'..='f').contains(&c))
}

#[test]
fn base62_digits_cover_the_alphabet() {
    assert_eq!(base62_digit(0), '0');
    assert_eq!(base62_digit(9), '9');
    assert_eq!(base62_digit(10), 'A');
    assert_eq!(base62_digit(35), 'Z');
    assert_eq!(base62_digit(36), 'a');
    assert_eq!(base62_digit(61), 'z');
    let all: String = (0..62).map(base62_digit).collect();
    assert_eq!(all, "0123456789ABCDEFGHIJKLMNOPQRSTUVWXYZabcdefghijklmnopqrstuvwxyz");
}

#[test]
fn generated_ids_have_the_requested_length() {
    for size in [0usize, 1, 5, 12] {
        let id = generate_id(size);
        assert_eq!(id.chars().count(), size);
        assert!(is_base62(&id));
    }
}

#[test]
fn allocator_grows_length_every_two_candidates() {
    let mut alloc = IdAllocator::new();
    let mut lengths = Vec::new();
    while let Some(id) = alloc.next_candidate() {
        assert!(is_base62(&id));
        lengths.push(id.len());
    }
    assert_eq!(lengths.len(), 2 * (MAX_ID_LEN - ID_LEN + 1));
    assert_eq!(&lengths[..6], &[5, 5, 6, 6, 7, 7]);
    assert_eq!(*lengths.last().unwrap(), MAX_ID_LEN);
    assert!(alloc.next_candidate().is_none());
}

#[test]
fn empty_secret_is_refused() {
    assert!(Secret::new(Vec::new()).is_none());
    assert!(Secret::from_text("").is_none());
    assert!(Secret::new(vec![0u8]).is_some());
    assert!(Secret::from_text("k").is_some());
}

#[test]
fn derived_key_is_truncated_hmac_sha256() {
    // HMAC-SHA256 test vector: key "Jefe", message "what do ya want for nothing?".
    let secret = Secret::from_text("Jefe").unwrap();
    assert_eq!(derive_key(&secret, "what do ya want for nothing?"), "5bdcc146bf60754e");
}

#[test]
fn derived_key_is_stable_and_distinct() {
    let secret = Secret::from_text("process secret").unwrap();
    let a = derive_key(&secret, "vxcRz");
    let b = derive_key(&secret, "vxcRz");
    let c = derive_key(&secret, "vxcRy");
    assert_eq!(a, b);
    assert_ne!(a, c);
    assert_eq!(a.len(), 16);
    assert!(is_lower_hex(&a));
    let other = Secret::from_text("another secret").unwrap();
    assert_ne!(derive_key(&other, "vxcRz"), a);
}

#[test]
fn hex_prefix_is_lower_case() {
    let bytes = [0xdeu8, 0xad, 0xbe, 0xef, 0x01];
    assert_eq!(hex_prefix(&bytes, 3), "deadbe");
    assert_eq!(hex_prefix(&bytes, 5), "deadbeef01");
    assert_eq!(hex_prefix(&bytes, 0), "");
}

#[test]
fn keys_match_is_exact_equality() {
    assert!(keys_match("a7772362cf6e2c36", "a7772362cf6e2c36"));
    assert!(!keys_match("a7772362cf6e2c36", "a7772362cf6e2c37"));
    assert!(!keys_match("a7772362cf6e2c36", "a7772362cf6e2c3"));
    assert!(!keys_match("a7772362cf6e2c36", ""));
    assert!(keys_match("", ""));
}
