use jwt_vault::{
    build_keygen_spec, format_tags, is_docker_environment_with, opt_or_dash, parse_ec_curve,
    resolve_data_dir, resolve_keychain_from, EcCurve, ErrorKind, KeyGenSpec, KeychainChoice,
    KeychainStore, MemoryKeychain, VaultErrorKind,
};

#[test]
fn resolve_keychain_file_rejects_without_docker_flag() {
    let err = resolve_keychain_from("file", None, None, "/data", false)
        .err()
        .expect("missing");
    assert!(err.message.contains("only supported in Docker"));
}

#[test]
fn resolve_keychain_file_requires_passphrase() {
    let err = resolve_keychain_from("file", None, None, "/data", true)
        .err()
        .expect("missing");
    assert!(err.message.contains("JWT_TESTER_KEYCHAIN_PASSPHRASE"));
}

#[test]
fn resolve_keychain_rejects_unknown_backend() {
    let err = resolve_keychain_from("nope", None, None, "/data", true)
        .err()
        .expect("unknown");
    assert!(err.message.contains("unsupported keychain backend"));
}

#[test]
fn resolve_keychain_selects_backends() {
    match resolve_keychain_from(" OS ", None, None, "/data", false).expect("os") {
        KeychainChoice::Os => {},
        _ => panic!("expected the platform store"),
    }
    match resolve_keychain_from("file", Some("pw".to_string()), None, "/data", true)
        .expect("file")
    {
        KeychainChoice::File { root, passphrase } => {
            assert_eq!(root, "/data/keychain");
            assert_eq!(passphrase, "pw");
        },
        _ => panic!("expected the file store"),
    }
    match resolve_keychain_from(
        "file",
        Some("pw".to_string()),
        Some("/elsewhere".to_string()),
        "/data",
        true,
    )
    .expect("file with root")
    {
        KeychainChoice::File { root, .. } => assert_eq!(root, "/elsewhere"),
        _ => panic!("expected the file store"),
    }
}

#[test]
fn docker_gate_requires_flag_and_marker_or_override() {
    assert!(is_docker_environment_with(true, true, false));
    assert!(is_docker_environment_with(true, false, true));
    assert!(!is_docker_environment_with(true, false, false));
    assert!(!is_docker_environment_with(false, true, true));
}

#[test]
fn resolve_data_dir_prefers_explicit() {
    assert_eq!(
        resolve_data_dir(Some("/a".to_string()), Some("/b".to_string())).unwrap(),
        "/a"
    );
    assert_eq!(resolve_data_dir(None, Some("/b".to_string())).unwrap(), "/b");
    let err = resolve_data_dir(None, None).unwrap_err();
    assert_eq!(err.kind, VaultErrorKind::StorageFailure);
}

#[test]
fn memory_keychain_set_get_delete() {
    let mut kc = MemoryKeychain::new();
    kc.set_password("svc", "acct", "secret").expect("set");
    assert_eq!(kc.len(), 1);
    assert_eq!(kc.get_password("svc", "acct").expect("get"), "secret");
    kc.set_password("svc", "acct", "newer").expect("replace");
    assert_eq!(kc.get_password("svc", "acct").expect("get"), "newer");
    assert_eq!(kc.len(), 1);
    kc.delete_password("svc", "acct").expect("delete");
    assert!(kc.get_password("svc", "acct").is_err());
    kc.delete_password("svc", "acct").expect("idempotent delete");
    assert_eq!(kc.len(), 0);
}

#[test]
fn memory_keychain_leaves_other_entries_alone() {
    let mut kc = MemoryKeychain::new();
    kc.set_password("svc", "one", "first").expect("set one");
    kc.set_password("svc", "two", "second").expect("set two");
    kc.set_password("svc", "one", "replaced").expect("replace one");
    assert_eq!(kc.get_password("svc", "two").expect("two kept"), "second");
    kc.delete_password("svc", "one").expect("delete one");
    assert_eq!(kc.get_password("svc", "two").expect("two still kept"), "second");
    assert!(kc.get_password("svc", "one").is_err());
    assert_eq!(kc.len(), 1);
}

#[test]
fn parse_ec_curve_accepts_aliases() {
    assert_eq!(parse_ec_curve(None).unwrap(), EcCurve::P256);
    assert_eq!(parse_ec_curve(Some(" P-256 ")).unwrap(), EcCurve::P256);
    assert_eq!(parse_ec_curve(Some("p384")).unwrap(), EcCurve::P384);
    let err = parse_ec_curve(Some("p-521")).unwrap_err();
    assert_eq!(err.kind, ErrorKind::InvalidKey);
}

#[test]
fn build_keygen_spec_resolves_kinds_and_rejects_mismatched_options() {
    let (spec, label) = build_keygen_spec("hmac", None, None, None).expect("hmac");
    assert_eq!(spec, KeyGenSpec::Hmac { bytes: 32 });
    assert_eq!(label, "base64url");

    let (spec, label) = build_keygen_spec("rsa", None, Some(3072), None).expect("rsa");
    assert_eq!(spec, KeyGenSpec::Rsa { bits: 3072 });
    assert_eq!(label, "pem");

    let (spec, _) = build_keygen_spec("ec", None, None, Some("p-384".to_string())).expect("ec");
    assert_eq!(spec, KeyGenSpec::Ec { curve: EcCurve::P384 });

    let (spec, _) = build_keygen_spec("eddsa", None, None, None).expect("eddsa");
    assert_eq!(spec, KeyGenSpec::EdDsa);

    assert!(build_keygen_spec("hmac", None, Some(2048), None).is_err());
    assert!(build_keygen_spec("rsa", Some(32), None, None).is_err());
    assert!(build_keygen_spec("eddsa", None, None, Some("p256".to_string())).is_err());
    assert!(build_keygen_spec("jwks", None, None, None).is_err());
    assert!(build_keygen_spec("dsa", None, None, None).is_err());
}

#[test]
fn display_helpers_format_tags_and_options() {
    assert_eq!(format_tags(&Vec::new()), "-");
    assert_eq!(
        format_tags(&vec!["one".to_string(), "two".to_string()]),
        "one,two"
    );
    assert_eq!(opt_or_dash(Some("x")), "x");
    assert_eq!(opt_or_dash(None), "-");
}
