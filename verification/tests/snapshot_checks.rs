use jwt_vault::{
    validate_snapshot, KeyEntry, KeyExport, ProjectEntry, TokenEntry, TokenExport, VaultSnapshot,
    EXPORT_VERSION,
};

fn base_snapshot() -> VaultSnapshot {
    VaultSnapshot {
        version: EXPORT_VERSION,
        exported_at: 1,
        projects: vec![ProjectEntry {
            id: "p1".to_string(),
            name: "alpha".to_string(),
            created_at: 1,
            default_key_id: None,
            description: None,
            tags: vec![],
        }],
        keys: vec![KeyExport {
            entry: KeyEntry {
                id: "k1".to_string(),
                project_id: "p1".to_string(),
                name: "key".to_string(),
                kind: "hmac".to_string(),
                created_at: 1,
                kid: None,
                description: None,
                tags: vec![],
            },
            material: "secret".to_string(),
        }],
        tokens: vec![TokenExport {
            entry: TokenEntry {
                id: "t1".to_string(),
                project_id: "p1".to_string(),
                name: "tok".to_string(),
                created_at: 1,
            },
            token: "token".to_string(),
        }],
    }
}

fn clone_project(p: &ProjectEntry) -> ProjectEntry {
    ProjectEntry {
        id: p.id.clone(),
        name: p.name.clone(),
        created_at: p.created_at,
        default_key_id: p.default_key_id.clone(),
        description: p.description.clone(),
        tags: p.tags.clone(),
    }
}

#[test]
fn validate_snapshot_rejects_wrong_version() {
    let mut snapshot = base_snapshot();
    snapshot.version = 99;
    let err = validate_snapshot(&snapshot).expect_err("expected error");
    assert!(err.message.contains("unsupported snapshot version"));
}

#[test]
fn validate_snapshot_rejects_duplicate_project_id() {
    let mut snapshot = base_snapshot();
    let dup = clone_project(&snapshot.projects[0]);
    snapshot.projects.push(dup);
    let err = validate_snapshot(&snapshot).expect_err("expected error");
    assert!(err.message.contains("duplicate project id"));
}

#[test]
fn validate_snapshot_rejects_key_with_unknown_project() {
    let mut snapshot = base_snapshot();
    snapshot.keys[0].entry.project_id = "missing".to_string();
    let err = validate_snapshot(&snapshot).expect_err("expected error");
    assert!(err.message.contains("references unknown project"));
}

#[test]
fn validate_snapshot_rejects_default_key_mismatch() {
    let mut snapshot = base_snapshot();
    snapshot.projects.push(ProjectEntry {
        id: "p2".to_string(),
        name: "bravo".to_string(),
        created_at: 1,
        default_key_id: None,
        description: None,
        tags: vec![],
    });
    snapshot.projects[0].default_key_id = Some("k1".to_string());
    snapshot.keys[0].entry.project_id = "p2".to_string();
    let err = validate_snapshot(&snapshot).expect_err("expected error");
    assert!(err.message.contains("belongs to a different project"));
}

#[test]
fn validate_snapshot_accepts_intact_snapshot() {
    let snapshot = base_snapshot();
    assert!(validate_snapshot(&snapshot).is_ok());
}
