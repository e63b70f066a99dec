//! Opening configuration: the open contract's inputs, the keychain-backend
//! decision, and the sandbox gate for the encrypted-file backend, all as
//! pure decisions over plain values captured from the environment once.

use vstd::prelude::*;
use vstd::string::StringExecFns;

use crate::errors::{VaultError, VaultErrorKind};
use crate::text::{eq_ignore_ascii, is_blank, opt_view, str_ieq, trim_spec, trim_str};

verus! {

/// What a caller supplies to open a vault: memory-only operation, or a data
/// directory for the persistent backend.
pub struct VaultConfig {
    pub no_persist: bool,
    pub data_dir: Option<String>,
}

/// Which keychain backend to use: the platform store, or the encrypted-file
/// store rooted at a directory and keyed by a passphrase.
pub enum KeychainChoice {
    Os,
    File { root: String, passphrase: String },
}

/// The data directory to use: the explicit one, else the platform default,
/// else a storage failure.
pub fn resolve_data_dir(explicit: Option<String>, fallback: Option<String>) -> (r: Result<
    String,
    VaultError,
>)
    ensures
        match r {
            Ok(d) => match explicit {
                Option::Some(e) => d@ == e@,
                Option::None => opt_view(fallback) == Option::Some(d@),
            },
            Err(e) => explicit is None && fallback is None && e.kind
                == VaultErrorKind::StorageFailure,
        },
{
    match explicit {
        Option::Some(d) => Ok(d),
        Option::None => match fallback {
            Option::Some(d) => Ok(d),
            Option::None => Err(
                VaultError::storage_failure("Unable to determine default data dir"),
            ),
        },
    }
}

/// Whether the sandboxed environment that may enable the file backend is
/// present: the opt-in flag, with either the container marker or the test
/// override.
pub fn is_docker_environment_with(
    docker_flag: bool,
    marker_exists: bool,
    test_override: bool,
) -> (r: bool)
    ensures
        r == (docker_flag && (marker_exists || test_override)),
{
    docker_flag && (marker_exists || test_override)
}

/// Choose the keychain backend from the captured environment: `os` (in any
/// letter case, trimmed) is the platform store; `file` needs the sandbox
/// gate and a passphrase, and roots itself under the data directory when no
/// root is given; anything else is rejected.
pub fn resolve_keychain_from(
    backend: &str,
    passphrase: Option<String>,
    root: Option<String>,
    data_dir: &str,
    allow_file_backend: bool,
) -> (r: Result<KeychainChoice, VaultError>)
    ensures
        ({
            let b = trim_spec(backend@);
            match r {
                Ok(c) => match c {
                    KeychainChoice::Os => str_ieq(b, "os"@),
                    KeychainChoice::File { root: rt, passphrase: pp } => {
                        &&& str_ieq(b, "file"@)
                        &&& allow_file_backend
                        &&& opt_view(passphrase) == Option::Some(pp@)
                        &&& rt@ == match root {
                            Option::Some(rr) => rr@,
                            Option::None => data_dir@ + "/keychain"@,
                        }
                    },
                },
                Err(e) => {
                    &&& e.kind == VaultErrorKind::InvalidInput
                    &&& !str_ieq(b, "os"@)
                    &&& (str_ieq(b, "file"@) ==> (!allow_file_backend || passphrase is None))
                },
            }
        }),
{
    let b = trim_str(backend);
    if eq_ignore_ascii(b.as_str(), "os") {
        return Ok(KeychainChoice::Os);
    }
    if eq_ignore_ascii(b.as_str(), "file") {
        if !allow_file_backend {
            return Err(VaultError::invalid_input(
                "file keychain backend is only supported in Docker (set JWT_TESTER_DOCKER=1)",
            ));
        }
        let pp = match passphrase {
            Option::Some(p) => p,
            Option::None => {
                return Err(VaultError::invalid_input(
                    "JWT_TESTER_KEYCHAIN_PASSPHRASE must be set for file keychain",
                ));
            },
        };
        let rt = match root {
            Option::Some(rr) => rr,
            Option::None => data_dir.to_owned().concat("/keychain"),
        };
        return Ok(KeychainChoice::File { root: rt, passphrase: pp });
    }
    Err(VaultError::invalid_input("unsupported keychain backend (use 'os' or 'file')"))
}

} // verus!
