use soul_lantern::crypto::{
    canonical_license, constant_time_eq, generate_license, hmac_sha256, license_from_bytes, mask_phone,
    normalize_license, normalize_phone, pbkdf2_hash, pbkdf2_verify, random_bytes, random_token, verify_license,
    SALT_LEN, TOKEN_BYTES,
};

const PEPPER: &[u8] = "test-pepper-不要用在生产".as_bytes();

#[test]
fn pbkdf2_roundtrip() {
    let salt = random_bytes(SALT_LEN);
    let hash = pbkdf2_hash("hunter2", &salt, 1000);
    assert!(pbkdf2_verify("hunter2", &salt, 1000, &hash));
    assert!(!pbkdf2_verify("hunter3", &salt, 1000, &hash));
}

#[test]
fn generated_license_verifies() {
    for _ in 0..50 {
        let key = generate_license(PEPPER);
        assert!(verify_license(PEPPER, &key), "a generated code must verify: {key}");
    }
}

#[test]
fn forged_license_is_rejected() {
    assert!(!verify_license(PEPPER, "SOUL-AAAA-AAAA-AAAB"));
    assert!(!verify_license(PEPPER, "SOUL-AAAA-AAAA-AAAC"));
    assert!(!verify_license(PEPPER, "SOUL-2345-6789-ABCD"));
}

#[test]
fn license_from_a_different_pepper_is_rejected() {
    let key = generate_license(b"another-pepper");
    assert!(!verify_license(PEPPER, &key));
}

#[test]
fn license_normalization_tolerates_copy_paste_noise() {
    let key = generate_license(PEPPER);
    let noisy = format!(" {} ", key.to_lowercase().replace('-', " — "));
    assert!(verify_license(PEPPER, &noisy));
}

#[test]
fn phone_normalization() {
    assert_eq!(normalize_phone("13800138000").as_deref(), Some("13800138000"));
    assert_eq!(normalize_phone("+86 138 0013 8000").as_deref(), Some("13800138000"));
    assert_eq!(normalize_phone("138-0013-8000").as_deref(), Some("13800138000"));
    assert!(normalize_phone("12800138000").is_none());
    assert!(normalize_phone("1380013800").is_none());
    assert!(normalize_phone("").is_none());
}

#[test]
fn phone_masking() {
    assert_eq!(mask_phone("13800138000"), "138****8000");
}

#[test]
fn constant_time_eq_works() {
    assert!(constant_time_eq(b"abc", b"abc"));
    assert!(!constant_time_eq(b"abc", b"abd"));
    assert!(!constant_time_eq(b"abc", b"abcd"));
}

#[test]
fn phone_masking_of_other_lengths_hides_everything() {
    assert_eq!(mask_phone("1380013800"), "***");
    assert_eq!(mask_phone(""), "***");
}

#[test]
fn license_from_fixed_bytes_has_the_display_shape_and_verifies() {
    let key = license_from_bytes(PEPPER, &[0, 1, 2, 3, 4, 5, 6, 7]);
    assert!(key.starts_with("SOUL-ABCD-EFGH-"));
    assert_eq!(key.len(), 19);
    assert!(verify_license(PEPPER, &key));
    assert!(!verify_license(b"other", &key));
}

#[test]
fn licence_alphabet_skips_ambiguous_letters() {
    let key = license_from_bytes(PEPPER, &[8, 9, 10, 11, 12, 13, 30, 31]);
    assert!(key.starts_with("SOUL-JKLM-NP89-"));
}

#[test]
fn normalization_keeps_letters_and_digits_upper_cased() {
    assert_eq!(normalize_license(" soul-ab2c_d3ef gh4j "), "SOULAB2CD3EFGH4J");
    assert_eq!(canonical_license("soulab2cd3efgh4j"), "SOUL-AB2C-D3EF-GH4J");
    assert_eq!(canonical_license("soul-ab"), "SOULAB");
}

#[test]
fn hmac_differs_from_its_message_and_has_sha256_length() {
    let tag = hmac_sha256(b"k", b"message");
    assert_eq!(tag.len(), 32);
    assert_ne!(tag, b"message".to_vec());
}

#[test]
fn session_tokens_are_fresh_and_url_safe() {
    let a = random_token();
    let b = random_token();
    assert_ne!(a, b);
    assert_eq!(a.len(), (TOKEN_BYTES * 4).div_ceil(3));
    assert!(a.chars().all(|c| c.is_ascii_alphanumeric() || c == '-' || c == '_'));
}

#[test]
fn pbkdf2_with_zero_iterations_never_matches() {
    let hash = pbkdf2_hash("pw", b"salt", 1);
    assert!(!pbkdf2_verify("pw", b"salt", 0, &hash));
    assert!(!pbkdf2_verify("pw", b"salt", 1, &[]));
}

#[test]
fn generated_licenses_have_the_printed_shape() {
    for _ in 0..50 {
        let key = generate_license(PEPPER);
        assert_eq!(key.len(), 19);
        assert!(key.starts_with("SOUL-"));
        let groups: Vec<&str> = key["SOUL-".len()..].split('-').collect();
        assert_eq!(groups.len(), 3);
        for g in groups {
            assert_eq!(g.len(), 4);
            assert!(g.chars().all(|c| "ABCDEFGHJKLMNPQRSTUVWXYZ23456789".contains(c)), "{key}");
        }
    }
}
