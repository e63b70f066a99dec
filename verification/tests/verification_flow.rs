use jsonwebtoken::{Algorithm, DecodingKey, EncodingKey, Header, Validation};
use jwt_vault::{
    resolve_verification_materials, ErrorKind, JwtAlg, KeyEntryInput, ProjectInput, Vault,
};

fn build_vault() -> (Vault, String) {
    let mut vault = Vault::new();
    let project = vault
        .add_project(ProjectInput {
            name: "proj".to_string(),
            description: None,
            tags: Vec::new(),
        })
        .expect("add project");
    (vault, project.id)
}

fn add_hmac_key(vault: &mut Vault, project_id: &str, name: &str, kid: Option<&str>, secret: &str) {
    vault
        .add_key(KeyEntryInput {
            project_id: project_id.to_string(),
            name: name.to_string(),
            kind: "hmac".to_string(),
            secret: secret.to_string(),
            kid: kid.map(|s| s.to_string()),
            description: None,
            tags: Vec::new(),
        })
        .expect("add key");
}

fn make_token(secret: &str, kid: Option<&str>) -> String {
    let mut header = Header::new(Algorithm::HS256);
    header.kid = kid.map(|s| s.to_string());
    let claims: serde_json::Value =
        serde_json::from_str("{\"sub\":\"test\"}").expect("claims JSON");
    jsonwebtoken::encode(&header, &claims, &EncodingKey::from_secret(secret.as_bytes()))
        .expect("encode token")
}

fn verify_with(material: &str, token: &str) -> serde_json::Value {
    let mut validation = Validation::new(Algorithm::HS256);
    validation.validate_exp = false;
    validation.required_spec_claims.clear();
    let data = jsonwebtoken::decode::<serde_json::Value>(
        token,
        &DecodingKey::from_secret(material.as_bytes()),
        &validation,
    )
    .expect("verify token");
    data.claims
}

#[test]
fn resolve_with_kid_selects_single_key() {
    let (mut vault, project_id) = build_vault();
    add_hmac_key(&mut vault, &project_id, "k1", Some("kid1"), "secret1");
    add_hmac_key(&mut vault, &project_id, "k2", Some("kid2"), "secret2");

    let token = make_token("secret1", Some("kid1"));
    let header = jsonwebtoken::decode_header(&token).expect("decode header");
    let materials = resolve_verification_materials(
        &vault,
        "proj",
        &None,
        &None,
        header.kid,
        false,
        JwtAlg::HS256,
    )
    .expect("resolve key");
    assert_eq!(materials.len(), 1);
    let claims = verify_with(&materials[0], &token);
    assert_eq!(claims["sub"], "test");
}

#[test]
fn resolve_with_kid_try_all_includes_other_keys() {
    let (mut vault, project_id) = build_vault();
    add_hmac_key(&mut vault, &project_id, "k1", Some("kid1"), "secret1");
    add_hmac_key(&mut vault, &project_id, "k2", Some("kid2"), "secret2");

    let token = make_token("secret1", Some("kid1"));
    let header = jsonwebtoken::decode_header(&token).expect("decode header");
    let materials = resolve_verification_materials(
        &vault,
        "proj",
        &None,
        &None,
        header.kid,
        true,
        JwtAlg::HS256,
    )
    .expect("resolve key");
    assert_eq!(materials.len(), 2);
    let claims = verify_with(&materials[0], &token);
    assert_eq!(claims["sub"], "test");
}

#[test]
fn resolve_with_missing_kid_errors() {
    let (mut vault, project_id) = build_vault();
    add_hmac_key(&mut vault, &project_id, "k1", Some("kid1"), "secret1");

    let token = make_token("secret1", Some("missing"));
    let header = jsonwebtoken::decode_header(&token).expect("decode header");
    let err = resolve_verification_materials(
        &vault,
        "proj",
        &None,
        &None,
        header.kid,
        false,
        JwtAlg::HS256,
    )
    .expect_err("expected error");
    assert!(err.message.contains("no key with kid"));
}

#[test]
fn zero_surviving_candidates_name_the_expected_kind() {
    let (mut vault, project_id) = build_vault();
    vault
        .add_key(KeyEntryInput {
            project_id: project_id.clone(),
            name: "only-rsa".to_string(),
            kind: "rsa".to_string(),
            secret: "rsa-material".to_string(),
            kid: None,
            description: None,
            tags: Vec::new(),
        })
        .expect("add rsa key");

    let err = resolve_verification_materials(
        &vault,
        "proj",
        &None,
        &None,
        None,
        false,
        JwtAlg::HS256,
    )
    .expect_err("no hmac key is stored");
    assert_eq!(err.kind, ErrorKind::InvalidKey);
    assert_eq!(err.message, "no keys of kind 'hmac' found in project proj");
}
