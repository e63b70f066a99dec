use jwt_vault::{
    build_snapshot, decrypt_secret, decrypt_snapshot, encrypt_secret, encrypt_snapshot, KeyEntry,
    KeyExport, ProjectEntry, TokenEntry, TokenExport, VaultErrorKind, VaultSnapshot,
    EXPORT_VERSION,
};

fn sample_snapshot() -> VaultSnapshot {
    VaultSnapshot {
        version: EXPORT_VERSION,
        exported_at: 123,
        projects: vec![ProjectEntry {
            id: "p1".to_string(),
            name: "alpha".to_string(),
            created_at: 123,
            default_key_id: None,
            description: Some("desc".to_string()),
            tags: vec!["tag".to_string()],
        }],
        keys: vec![KeyExport {
            entry: KeyEntry {
                id: "k1".to_string(),
                project_id: "p1".to_string(),
                name: "key".to_string(),
                kind: "hmac".to_string(),
                created_at: 123,
                kid: Some("kid".to_string()),
                description: None,
                tags: vec![],
            },
            material: "secret".to_string(),
        }],
        tokens: vec![TokenExport {
            entry: TokenEntry {
                id: "t1".to_string(),
                project_id: "p1".to_string(),
                name: "tok".to_string(),
                created_at: 123,
            },
            token: "token".to_string(),
        }],
    }
}

#[test]
fn export_encrypt_decrypt_roundtrip() {
    let snapshot = sample_snapshot();
    let bundle = encrypt_snapshot(&snapshot, "passphrase").expect("encrypt");
    let decoded = decrypt_snapshot(&bundle, "passphrase").expect("decrypt");
    assert_eq!(decoded.projects.len(), 1);
    assert_eq!(decoded.keys.len(), 1);
    assert_eq!(decoded.tokens.len(), 1);
    assert_eq!(decoded.projects[0].name, "alpha");
    assert_eq!(decoded.projects[0].description.as_deref(), Some("desc"));
    assert_eq!(decoded.projects[0].tags, vec!["tag".to_string()]);
    assert_eq!(decoded.keys[0].material, "secret");
    assert_eq!(decoded.keys[0].entry.kid.as_deref(), Some("kid"));
    assert_eq!(decoded.tokens[0].token, "token");
    assert_eq!(decoded.exported_at, 123);
}

#[test]
fn decrypt_rejects_wrong_passphrase() {
    let snapshot = VaultSnapshot {
        version: EXPORT_VERSION,
        exported_at: 1,
        projects: vec![],
        keys: vec![],
        tokens: vec![],
    };
    let bundle = encrypt_snapshot(&snapshot, "good").expect("encrypt");
    let err = decrypt_snapshot(&bundle, "bad");
    assert!(err.is_err());
    assert_eq!(err.unwrap_err().kind, VaultErrorKind::CryptoFailure);
}

#[test]
fn decrypt_rejects_unsupported_headers() {
    let snapshot = sample_snapshot();

    let mut wrong_version = encrypt_snapshot(&snapshot, "pass").expect("encrypt");
    wrong_version.version = 9;
    let err = decrypt_snapshot(&wrong_version, "pass").expect_err("bad version");
    assert_eq!(err.kind, VaultErrorKind::InvalidInput);
    assert!(err.message.contains("unsupported version"));

    let mut wrong_kdf = encrypt_snapshot(&snapshot, "pass").expect("encrypt");
    wrong_kdf.kdf.name = "scrypt".to_string();
    let err = decrypt_snapshot(&wrong_kdf, "pass").expect_err("bad kdf");
    assert_eq!(err.kind, VaultErrorKind::InvalidInput);
    assert!(err.message.contains("unsupported kdf"));

    let mut wrong_cipher = encrypt_snapshot(&snapshot, "pass").expect("encrypt");
    wrong_cipher.cipher = "aes-gcm".to_string();
    let err = decrypt_snapshot(&wrong_cipher, "pass").expect_err("bad cipher");
    assert_eq!(err.kind, VaultErrorKind::InvalidInput);
    assert!(err.message.contains("unsupported cipher"));
}

#[test]
fn decrypt_rejects_tampered_ciphertext() {
    let snapshot = sample_snapshot();
    let mut bundle = encrypt_snapshot(&snapshot, "pass").expect("encrypt");
    bundle.ciphertext = "AAAA".to_string();
    let err = decrypt_snapshot(&bundle, "pass").expect_err("tampered");
    assert_eq!(err.kind, VaultErrorKind::CryptoFailure);
}

#[test]
fn secret_entry_roundtrip_and_wrong_passphrase() {
    let entry = encrypt_secret("passphrase", "secret").expect("encrypt");
    assert_eq!(entry.version, 1);
    assert_eq!(entry.kdf.name, "argon2id");
    assert_eq!(entry.kdf.mem_kib, 65536);
    assert_eq!(entry.kdf.iterations, 3);
    assert_eq!(entry.kdf.parallelism, 1);
    assert_eq!(entry.cipher, "xchacha20poly1305");

    let value = decrypt_secret("passphrase", &entry).expect("decrypt");
    assert_eq!(value, "secret");

    let err = decrypt_secret("wrong", &entry);
    assert!(err.is_err());

    let blank = encrypt_secret("   ", "secret");
    assert_eq!(blank.unwrap_err().kind, VaultErrorKind::InvalidInput);
}

#[test]
fn fresh_salt_and_nonce_each_export() {
    let snapshot = sample_snapshot();
    let a = encrypt_snapshot(&snapshot, "pass").expect("encrypt");
    let b = encrypt_snapshot(&snapshot, "pass").expect("encrypt");
    assert!(a.kdf.salt != b.kdf.salt || a.nonce != b.nonce);
}

#[test]
fn build_snapshot_carries_version_and_content() {
    let s = build_snapshot(
        vec![ProjectEntry {
            id: "p1".to_string(),
            name: "alpha".to_string(),
            created_at: 5,
            default_key_id: None,
            description: None,
            tags: vec![],
        }],
        Vec::new(),
        Vec::new(),
    );
    assert_eq!(s.version, EXPORT_VERSION);
    assert_eq!(s.projects.len(), 1);
    assert!(s.keys.is_empty());
    assert!(s.tokens.is_empty());
}
