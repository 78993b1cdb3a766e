use pastebin::{
    authorize, check_size, check_submission, derive_key, is_expired, PasteError, Secret, DAY_SECS,
    MAX_PASTE_BYTES, RETENTION_SECS,
};

#[test]
fn size_limit_counts_utf8_bytes() {
    let at_limit = "a".repeat(MAX_PASTE_BYTES);
    assert_eq!(check_size(&at_limit), Ok(()));
    let over = "a".repeat(MAX_PASTE_BYTES + 1);
    assert_eq!(check_size(&over), Err(PasteError::SizeExceeded));
    // Two bytes per character: half the limit in characters is the limit in bytes.
    let wide = "é".repeat(MAX_PASTE_BYTES / 2);
    assert_eq!(check_size(&wide), Ok(()));
    let wide_over = "é".repeat(MAX_PASTE_BYTES / 2 + 1);
    assert_eq!(check_size(&wide_over), Err(PasteError::SizeExceeded));
}

#[test]
fn submission_needs_content() {
    assert_eq!(check_submission(""), Err(PasteError::EmptyBody));
    assert_eq!(check_submission("x"), Ok(()));
    let over = "a".repeat(MAX_PASTE_BYTES + 1);
    assert_eq!(check_submission(&over), Err(PasteError::SizeExceeded));
}

#[test]
fn authorization_checks_existence_then_key() {
    let secret = Secret::from_text("gate").unwrap();
    let key = derive_key(&secret, "abcde");
    assert_eq!(authorize(false, &secret, "abcde", &key), Err(PasteError::NotFound));
    assert_eq!(authorize(true, &secret, "abcde", "0000000000000000"), Err(PasteError::Unauthorized));
    assert_eq!(authorize(true, &secret, "abcde", &key), Ok(()));
    assert_eq!(authorize(true, &secret, "abcdf", &key), Err(PasteError::Unauthorized));
}

#[test]
fn retention_is_thirty_days() {
    assert_eq!(RETENTION_SECS, 30 * 86400);
    let now = 100 * DAY_SECS;
    assert!(!is_expired(now, now - RETENTION_SECS));
    assert!(is_expired(now, now - RETENTION_SECS - 1));
    assert!(is_expired(now, now - 31 * DAY_SECS));
    assert!(!is_expired(now, now - DAY_SECS));
    assert!(!is_expired(now, now + 5));
    assert!(!is_expired(0, 0));
}

#[test]
fn errors_have_messages() {
    assert_eq!(PasteError::NotFound.message(), "paste does not exist");
    assert_eq!(PasteError::Unauthorized.message(), "key is not valid");
}
