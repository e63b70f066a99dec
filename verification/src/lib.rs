//! A local credential vault for JWT key material: projects, keys and tokens
//! with dual-backend persistence, a pluggable keychain with an encrypted-file
//! envelope scheme, deterministic key resolution for signing and
//! verification, and passphrase-protected export/import of the whole vault.

pub mod alg;
pub mod args;
pub mod config;
pub mod codec;
pub mod envelope;
pub mod export;
pub mod errors;
pub mod ids;
pub mod keychain;
pub mod laws;
pub mod resolver;
pub mod retry;
pub mod snapshot;
pub mod text;
pub mod types;
pub mod vault;

pub use alg::{JwtAlg, KeyFormat};
pub use args::{
    build_keygen_spec, format_tags, has_verify_request, opt_or_dash, parse_ec_curve, EcCurve,
    KeyGenSpec, OutputConfig, OutputMode, StandardClaims, VerifyArgs, VerifyCommonArgs,
};
pub use config::{is_docker_environment_with, resolve_data_dir, resolve_keychain_from, KeychainChoice, VaultConfig};
pub use envelope::{
    decrypt_secret, decrypt_snapshot, encrypt_secret, encrypt_snapshot, EncryptedEntry,
    ExportBundle, KdfParams,
};
pub use errors::{AppError, ErrorKind, VaultError, VaultErrorKind};
pub use export::build_snapshot;
pub use ids::{new_uuid, now_epoch};
pub use keychain::{KeychainStore, MemoryKeychain, OsKeychain};
pub use resolver::{
    filter_keys_by_kind, resolve_candidates, resolve_encoding_material, resolve_project_key_single,
    resolve_project_keys, resolve_verification_materials,
};
pub use retry::{select_verify_outcome, verify_should_continue};
pub use snapshot::{validate_snapshot, KeyExport, TokenExport, VaultSnapshot, EXPORT_VERSION};
pub use types::{KeyEntry, KeyEntryInput, ProjectEntry, ProjectInput, TokenEntry, TokenEntryInput};
pub use vault::{SecretEntry, Vault};
pub use alg::{detect_key_format, expected_kind};
