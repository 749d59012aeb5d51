use qmsrs::config::SecurityConfig;
use qmsrs::security::{Permission, SecurityManager, UserRole};

fn test_security_manager() -> SecurityManager {
    SecurityManager::new(SecurityConfig::default())
}

#[test]
fn test_user_role_permissions() {
    let admin = UserRole::SystemAdmin;
    let user = UserRole::User;
    let readonly = UserRole::ReadOnly;

    assert!(admin.has_permission(Permission::SystemAdmin));
    assert!(admin.has_permission(Permission::WriteDocuments));

    assert!(user.has_permission(Permission::ReadDocuments));
    assert!(user.has_permission(Permission::WriteDocuments));
    assert!(!user.has_permission(Permission::ApproveDocuments));

    assert!(readonly.has_permission(Permission::ReadDocuments));
    assert!(!readonly.has_permission(Permission::WriteDocuments));
}

#[test]
fn test_password_complexity_validation() {
    let security = test_security_manager();

    // Valid complex password
    assert!(security.validate_password_complexity("TestPass123!@#"));

    // Invalid passwords
    assert!(!security.validate_password_complexity("short"));
    assert!(!security.validate_password_complexity("nouppercase123!"));
    assert!(!security.validate_password_complexity("NOLOWERCASE123!"));
    assert!(!security.validate_password_complexity("NoNumbers!@#"));
    assert!(!security.validate_password_complexity("NoSpecialChars123"));
}

#[test]
fn test_password_hashing_and_verification() {
    let security = test_security_manager();
    let password = "TestPass123!@#";

    let (hash, _salt) = security.hash_password(password).unwrap();
    assert!(security.verify_password(password, &hash).unwrap());
    assert!(!security.verify_password("WrongPassword", &hash).unwrap());
}

#[test]
fn test_password_hashing_rejects_weak_password() {
    let security = test_security_manager();
    assert!(security.hash_password("weak").is_err());
}

#[test]
fn test_encryption_decryption() {
    let security = test_security_manager();
    let key = b"12345678901234567890123456789012"; // 32 bytes
    let data = b"Sensitive regulated data";

    let encrypted = security.encrypt_data(data, key).unwrap();
    let decrypted = security.decrypt_data(&encrypted, key).unwrap();

    assert_eq!(data, &decrypted[..]);
}

#[test]
fn test_encryption_output_shape() {
    let security = test_security_manager();
    let key = b"12345678901234567890123456789012";
    let data = b"payload";

    let encrypted = security.encrypt_data(data, key).unwrap();
    // 12-byte nonce plus ciphertext with a 16-byte tag
    assert_eq!(encrypted.len(), data.len() + 28);
    assert_ne!(&encrypted[12..12 + data.len()], &data[..]);
}

#[test]
fn test_encryption_rejects_bad_key_length() {
    let security = test_security_manager();
    assert!(security.encrypt_data(b"data", b"short-key").is_err());
    assert!(security.decrypt_data(b"datadatadatadata", b"short-key").is_err());
}

#[test]
fn test_decryption_fails_closed_on_wrong_key() {
    let security = test_security_manager();
    let key = b"12345678901234567890123456789012";
    let other_key = b"abcdefghijklmnopqrstuvwxyz012345";
    let data = b"Sensitive regulated data";

    let encrypted = security.encrypt_data(data, key).unwrap();
    assert!(security.decrypt_data(&encrypted, other_key).is_err());
}

#[test]
fn test_decryption_fails_closed_on_tampered_ciphertext() {
    let security = test_security_manager();
    let key = b"12345678901234567890123456789012";
    let data = b"Sensitive regulated data";

    let mut encrypted = security.encrypt_data(data, key).unwrap();
    let last = encrypted.len() - 1;
    encrypted[last] ^= 0x01; // flip one bit
    assert!(security.decrypt_data(&encrypted, key).is_err());

    // Too-short input is rejected, not misread
    assert!(security.decrypt_data(&encrypted[..8], key).is_err());
}

#[test]
fn test_hash_calculation() {
    let security = test_security_manager();
    let data = b"test data for hashing";

    let hash1 = security.calculate_hash(data);
    let hash2 = security.calculate_hash(data);

    assert_eq!(hash1, hash2);
    assert!(!hash1.is_empty());
}

#[test]
fn test_hash_known_value() {
    let security = test_security_manager();
    // SHA-256 of "abc", in lowercase hexadecimal
    assert_eq!(
        security.calculate_hash(b"abc"),
        "ba7816bf8f01cfea414140de5dae2223b00361a396177a9cb410ff61f20015ad"
    );
}

#[test]
fn test_signature_generation_and_verification() {
    let security = test_security_manager();
    let key = b"a-shared-signing-secret";
    let data = b"actor|action|resource|1700000000";

    let sig1 = security.generate_signature(data, key).unwrap();
    let sig2 = security.generate_signature(data, key).unwrap();
    assert_eq!(sig1, sig2); // deterministic for identical inputs
    assert_eq!(sig1.len(), 64); // 32 HMAC bytes in hexadecimal

    assert!(security.verify_signature(data, &sig1, key));
    assert!(!security.verify_signature(b"actor|action|resource|1700000001", &sig1, key));
    assert!(!security.verify_signature(data, &sig1, b"another-secret"));
    assert!(!security.verify_signature(data, "not-a-valid-signature", key));
}

#[test]
fn test_signature_staleness_policy() {
    let security = test_security_manager();
    let signed_at: i64 = 1_700_000_000;

    // The policy check is independent of cryptographic verification.
    assert!(security.signature_is_stale(signed_at, signed_at + 25 * 3600, 24));
    assert!(!security.signature_is_stale(signed_at, signed_at + 23 * 3600, 24));
    assert!(!security.signature_is_stale(signed_at, signed_at + 24 * 3600, 24)); // boundary

    // A stale signature still verifies cryptographically.
    let key = b"a-shared-signing-secret";
    let data = b"actor|action|resource|1700000000";
    let sig = security.generate_signature(data, key).unwrap();
    assert!(security.verify_signature(data, &sig, key));
}

#[test]
fn test_failed_login_attempts() {
    let mut security = test_security_manager();
    let username = "testuser";

    assert!(!security.is_user_locked(username));

    // Record failed attempts up to the configured maximum
    for _ in 0..5 {
        security.record_failed_attempt(username);
    }

    assert!(security.is_user_locked(username));

    // Clear attempts
    security.clear_failed_attempts(username);
    assert!(!security.is_user_locked(username));
}

#[test]
fn test_session_management() {
    let mut security = test_security_manager();
    let user_id = "user123".to_string();
    let ip_address = Some("192.168.1.1".to_string());

    // Create session
    let session_id = security.create_session(user_id.clone(), ip_address).unwrap();
    assert_eq!(session_id.len(), 36);

    // Validate session
    let session = security.validate_session(&session_id).unwrap();
    assert!(session.is_some());
    assert_eq!(session.unwrap().user_id, user_id);

    // Revoke session
    security.revoke_session(&session_id).unwrap();
    let session = security.validate_session(&session_id).unwrap();
    assert!(session.is_none());
}

#[test]
fn test_cleanup_expired_sessions() {
    let mut security = test_security_manager();
    let id1 = security.create_session("u1".to_string(), None).unwrap();
    let id2 = security.create_session("u2".to_string(), None).unwrap();
    security.revoke_session(&id1).unwrap();

    security.cleanup_expired_sessions();
    // The revoked session is gone; the live one survives.
    assert!(security.validate_session(&id1).unwrap().is_none());
    assert!(security.validate_session(&id2).unwrap().is_some());
}
