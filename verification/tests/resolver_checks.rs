use jwt_vault::{
    detect_key_format, expected_kind, filter_keys_by_kind, has_verify_request,
    resolve_project_keys, select_verify_outcome, verify_should_continue, AppError, ErrorKind,
    JwtAlg, KeyEntry, KeyEntryInput, KeyFormat, ProjectEntry, ProjectInput, Vault,
    VerifyCommonArgs,
};

fn memory_vault() -> Vault {
    Vault::new()
}

fn add_project(vault: &mut Vault, name: &str) -> ProjectEntry {
    vault
        .add_project(ProjectInput {
            name: name.to_string(),
            description: None,
            tags: Vec::new(),
        })
        .expect("add project")
}

fn add_hmac_key(vault: &mut Vault, project_id: &str, name: &str, kid: Option<&str>) -> KeyEntry {
    vault
        .add_key(KeyEntryInput {
            project_id: project_id.to_string(),
            name: name.to_string(),
            kind: "hmac".to_string(),
            secret: "secret".to_string(),
            kid: kid.map(|v| v.to_string()),
            description: None,
            tags: Vec::new(),
        })
        .expect("add key")
}

#[test]
fn expected_kind_maps_algorithms() {
    assert_eq!(expected_kind(JwtAlg::HS256), "hmac");
    assert_eq!(expected_kind(JwtAlg::RS256), "rsa");
    assert_eq!(expected_kind(JwtAlg::ES256), "ec");
    assert_eq!(expected_kind(JwtAlg::EdDSA), "eddsa");
}

#[test]
fn detect_key_format_pem_and_der() {
    assert_eq!(detect_key_format(b"-----BEGIN TEST"), KeyFormat::Pem);
    assert_eq!(detect_key_format(b"\x01\x02\x03"), KeyFormat::Der);
}

#[test]
fn resolve_project_keys_errors_when_project_missing() {
    let vault = memory_vault();
    let err = resolve_project_keys(&vault, "missing", &None, &None, None, false).unwrap_err();
    assert!(err.message.contains("project not found"));
}

#[test]
fn resolve_project_keys_errors_when_no_keys() {
    let mut vault = memory_vault();
    add_project(&mut vault, "alpha");
    let err = resolve_project_keys(&vault, "alpha", &None, &None, None, false).unwrap_err();
    assert!(err.message.contains("project has no keys"));
}

#[test]
fn resolve_project_keys_by_id_and_name() {
    let mut vault = memory_vault();
    let project = add_project(&mut vault, "alpha");
    let key1 = add_hmac_key(&mut vault, &project.id, "one", None);
    let key2 = add_hmac_key(&mut vault, &project.id, "two", None);

    let (_p, keys) =
        resolve_project_keys(&vault, "alpha", &Some(key1.id.clone()), &None, None, false)
            .expect("resolve by id");
    assert_eq!(keys.len(), 1);
    assert_eq!(keys[0].id, key1.id);

    let (_p, keys) = resolve_project_keys(
        &vault,
        "alpha",
        &None,
        &Some(key2.name.clone()),
        None,
        false,
    )
    .expect("resolve by name");
    assert_eq!(keys.len(), 1);
    assert_eq!(keys[0].id, key2.id);
}

#[test]
fn resolve_project_keys_kid_selection_and_try_all() {
    let mut vault = memory_vault();
    let project = add_project(&mut vault, "alpha");
    let key1 = add_hmac_key(&mut vault, &project.id, "one", Some("kid1"));
    let key2 = add_hmac_key(&mut vault, &project.id, "two", Some("kid2"));

    let (_p, keys) = resolve_project_keys(
        &vault,
        "alpha",
        &None,
        &None,
        Some("kid1".to_string()),
        true,
    )
    .expect("resolve by kid");
    assert_eq!(keys.len(), 2);
    assert_eq!(keys[0].id, key1.id);

    let err = resolve_project_keys(
        &vault,
        "alpha",
        &None,
        &None,
        Some("missing".to_string()),
        false,
    )
    .unwrap_err();
    assert!(err.message.contains("no key with kid"));

    let _ = add_hmac_key(&mut vault, &project.id, "dupe", Some("kid1"));
    let err = resolve_project_keys(
        &vault,
        "alpha",
        &None,
        &None,
        Some("kid1".to_string()),
        false,
    )
    .unwrap_err();
    assert!(err.message.contains("multiple keys match kid"));
    assert_eq!(key2.name, "two");
}

#[test]
fn resolve_project_keys_default_and_single_key() {
    let mut vault = memory_vault();
    let project = add_project(&mut vault, "alpha");
    let _key1 = add_hmac_key(&mut vault, &project.id, "one", None);
    let key2 = add_hmac_key(&mut vault, &project.id, "two", None);

    vault
        .set_default_key(&project.id, Some(&key2.id))
        .expect("set default key");

    let (_p, keys) = resolve_project_keys(&vault, "alpha", &None, &None, None, false)
        .expect("resolve default");
    assert_eq!(keys.len(), 1);
    assert_eq!(keys[0].id, key2.id);

    let (_p, keys) = resolve_project_keys(&vault, "alpha", &None, &None, None, true)
        .expect("resolve default try all");
    assert_eq!(keys.len(), 2);
    assert_eq!(keys[0].id, key2.id);

    vault
        .set_default_key(&project.id, None)
        .expect("clear default key");
    let err = resolve_project_keys(&vault, "alpha", &None, &None, None, false).unwrap_err();
    assert!(err.message.contains("project has"));
}

#[test]
fn resolve_project_keys_when_single_key_no_default() {
    let mut vault = memory_vault();
    add_project(&mut vault, "solo");
    let project = vault.find_project_by_name("solo").unwrap().unwrap();
    let key = add_hmac_key(&mut vault, &project.id, "only", None);

    let (_p, keys) = resolve_project_keys(&vault, "solo", &None, &None, None, false)
        .expect("resolve single key");
    assert_eq!(keys.len(), 1);
    assert_eq!(keys[0].id, key.id);
}

#[test]
fn rsa_key_is_never_an_hmac_candidate() {
    let mut vault = memory_vault();
    let project = add_project(&mut vault, "alpha");
    let _rsa = vault
        .add_key(KeyEntryInput {
            project_id: project.id.clone(),
            name: "rsa-key".to_string(),
            kind: "rsa".to_string(),
            secret: "rsa-material".to_string(),
            kid: None,
            description: None,
            tags: Vec::new(),
        })
        .expect("add rsa key");
    let hmac = add_hmac_key(&mut vault, &project.id, "hmac-key", None);

    let keys = vault.list_keys(Some(&project.id)).expect("list keys");
    let kept = filter_keys_by_kind(&keys, JwtAlg::HS256);
    assert_eq!(kept.len(), 1);
    assert_eq!(kept[0].id, hmac.id);

    let kept_upper = {
        let mut vault2 = memory_vault();
        let p2 = add_project(&mut vault2, "upper");
        vault2
            .add_key(KeyEntryInput {
                project_id: p2.id.clone(),
                name: "k".to_string(),
                kind: "HMAC".to_string(),
                secret: "s".to_string(),
                kid: None,
                description: None,
                tags: Vec::new(),
            })
            .expect("add key");
        let keys2 = vault2.list_keys(Some(&p2.id)).expect("list keys");
        filter_keys_by_kind(&keys2, JwtAlg::HS256)
    };
    assert_eq!(kept_upper.len(), 1);
}

#[test]
fn verify_retry_accepts_after_signature_failures_only() {
    let sig = AppError::invalid_signature("bad signature".to_string());
    let attempts = vec![Some(sig), None];
    let outcome = select_verify_outcome(&attempts).expect("second candidate wins");
    assert_eq!(outcome, 1);
}

#[test]
fn verify_retry_aborts_on_non_signature_failure() {
    let expired = AppError::invalid_claims("token expired".to_string());
    let attempts = vec![Some(expired), None];
    let err = select_verify_outcome(&attempts).expect_err("non-signature failure aborts");
    assert_eq!(err.kind, ErrorKind::InvalidClaims);
    assert_eq!(err.message, "token expired");
    assert!(!verify_should_continue(ErrorKind::InvalidClaims));
    assert!(verify_should_continue(ErrorKind::InvalidSignature));
}

#[test]
fn verify_retry_aggregates_exhausted_candidates() {
    let s1 = AppError::invalid_signature("one".to_string());
    let s2 = AppError::invalid_signature("two".to_string());
    let attempts = vec![Some(s1), Some(s2)];
    let err = select_verify_outcome(&attempts).expect_err("all candidates failed");
    assert_eq!(err.kind, ErrorKind::InvalidSignature);
    assert_eq!(err.message, "signature invalid for all candidate keys");

    let none: Vec<Option<AppError>> = Vec::new();
    let err = select_verify_outcome(&none).expect_err("no candidates");
    assert_eq!(err.kind, ErrorKind::InvalidSignature);
    assert_eq!(err.message, "signature invalid for all candidate keys");
}

fn base_args() -> VerifyCommonArgs {
    VerifyCommonArgs {
        secret: None,
        key: None,
        jwks: None,
        key_format: None,
        kid: None,
        allow_single_jwk: false,
        project: None,
        key_id: None,
        key_name: None,
        try_all_keys: false,
        ignore_exp: false,
        leeway_secs: 30,
        iss: None,
        sub: None,
        aud: Vec::new(),
        require: Vec::new(),
        explain: false,
        alg: None,
    }
}

#[test]
fn has_verify_request_false_when_defaults() {
    let args = base_args();
    assert!(!has_verify_request(&args));
}

#[test]
fn has_verify_request_true_when_any_flag_set() {
    let mut args = base_args();
    args.secret = Some("secret".to_string());
    assert!(has_verify_request(&args));

    let mut args = base_args();
    args.key = Some("key".to_string());
    assert!(has_verify_request(&args));

    let mut args = base_args();
    args.jwks = Some("jwks".to_string());
    assert!(has_verify_request(&args));

    let mut args = base_args();
    args.project = Some("proj".to_string());
    assert!(has_verify_request(&args));

    let mut args = base_args();
    args.alg = Some(JwtAlg::HS256);
    assert!(has_verify_request(&args));

    let mut args = base_args();
    args.try_all_keys = true;
    assert!(has_verify_request(&args));

    let mut args = base_args();
    args.ignore_exp = true;
    assert!(has_verify_request(&args));

    let mut args = base_args();
    args.leeway_secs = 45;
    assert!(has_verify_request(&args));

    let mut args = base_args();
    args.iss = Some("iss".to_string());
    assert!(has_verify_request(&args));

    let mut args = base_args();
    args.sub = Some("sub".to_string());
    assert!(has_verify_request(&args));

    let mut args = base_args();
    args.aud = vec!["aud".to_string()];
    assert!(has_verify_request(&args));

    let mut args = base_args();
    args.require = vec!["claim".to_string()];
    assert!(has_verify_request(&args));

    let mut args = base_args();
    args.explain = true;
    assert!(has_verify_request(&args));
}
