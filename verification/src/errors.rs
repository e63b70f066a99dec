//! Error taxonomy of the vault core and of the command layer.
//!
//! Vault operations report one of five failure classes; the command layer
//! (token verification, key resolution) uses its own five kinds whose codes
//! and exit codes are part of the observable interface.

use vstd::prelude::*;

verus! {

/// Failure class of a vault operation.
#[derive(Clone, Copy, Debug, PartialEq, Eq, Structural)]
pub enum VaultErrorKind {
    /// A project, key, token or its secret material is absent.
    NotFound,
    /// A duplicate project name, or an import into a non-empty vault.
    Conflict,
    /// An empty required field or an unsupported bundle header.
    InvalidInput,
    /// A key-derivation or decryption failure, including a wrong passphrase.
    CryptoFailure,
    /// An underlying storage fault, reported opaquely.
    StorageFailure,
}

/// A vault failure: its class plus a human-readable message.
#[derive(Clone, Debug)]
pub struct VaultError {
    pub kind: VaultErrorKind,
    pub message: String,
}

impl VaultError {
    pub fn new(kind: VaultErrorKind, message: String) -> (r: VaultError)
        ensures
            r.kind == kind,
            r.message@ == message@,
    {
        VaultError { kind, message }
    }

    pub fn not_found(message: &str) -> (r: VaultError)
        ensures
            r.kind == VaultErrorKind::NotFound,
            r.message@ == message@,
    {
        VaultError { kind: VaultErrorKind::NotFound, message: message.to_owned() }
    }

    pub fn conflict(message: &str) -> (r: VaultError)
        ensures
            r.kind == VaultErrorKind::Conflict,
            r.message@ == message@,
    {
        VaultError { kind: VaultErrorKind::Conflict, message: message.to_owned() }
    }

    pub fn invalid_input(message: &str) -> (r: VaultError)
        ensures
            r.kind == VaultErrorKind::InvalidInput,
            r.message@ == message@,
    {
        VaultError { kind: VaultErrorKind::InvalidInput, message: message.to_owned() }
    }

    pub fn crypto_failure(message: &str) -> (r: VaultError)
        ensures
            r.kind == VaultErrorKind::CryptoFailure,
            r.message@ == message@,
    {
        VaultError { kind: VaultErrorKind::CryptoFailure, message: message.to_owned() }
    }

    pub fn storage_failure(message: &str) -> (r: VaultError)
        ensures
            r.kind == VaultErrorKind::StorageFailure,
            r.message@ == message@,
    {
        VaultError { kind: VaultErrorKind::StorageFailure, message: message.to_owned() }
    }
}

/// Failure kind of the command layer (token and key handling).
#[derive(Clone, Copy, Debug, PartialEq, Eq, Structural)]
pub enum ErrorKind {
    InvalidToken,
    InvalidSignature,
    InvalidClaims,
    InvalidKey,
    Internal,
}

/// A command-layer failure: its kind plus a message for the user.
#[derive(Clone, Debug)]
pub struct AppError {
    pub kind: ErrorKind,
    pub message: String,
}

impl AppError {
    pub fn new(kind: ErrorKind, message: String) -> (r: AppError)
        ensures
            r.kind == kind,
            r.message@ == message@,
    {
        AppError { kind, message }
    }

    pub fn invalid_token(message: String) -> (r: AppError)
        ensures
            r.kind == ErrorKind::InvalidToken,
            r.message@ == message@,
    {
        AppError { kind: ErrorKind::InvalidToken, message }
    }

    pub fn invalid_signature(message: String) -> (r: AppError)
        ensures
            r.kind == ErrorKind::InvalidSignature,
            r.message@ == message@,
    {
        AppError { kind: ErrorKind::InvalidSignature, message }
    }

    pub fn invalid_claims(message: String) -> (r: AppError)
        ensures
            r.kind == ErrorKind::InvalidClaims,
            r.message@ == message@,
    {
        AppError { kind: ErrorKind::InvalidClaims, message }
    }

    pub fn invalid_key(message: String) -> (r: AppError)
        ensures
            r.kind == ErrorKind::InvalidKey,
            r.message@ == message@,
    {
        AppError { kind: ErrorKind::InvalidKey, message }
    }

    pub fn internal(message: String) -> (r: AppError)
        ensures
            r.kind == ErrorKind::Internal,
            r.message@ == message@,
    {
        AppError { kind: ErrorKind::Internal, message }
    }

    /// The stable machine-readable code of each error kind.
    pub fn code(&self) -> (r: &'static str)
        ensures
            self.kind == ErrorKind::InvalidToken ==> r@ == "INVALID_TOKEN"@,
            self.kind == ErrorKind::InvalidSignature ==> r@ == "INVALID_SIGNATURE"@,
            self.kind == ErrorKind::InvalidClaims ==> r@ == "INVALID_CLAIMS"@,
            self.kind == ErrorKind::InvalidKey ==> r@ == "INVALID_KEY"@,
            self.kind == ErrorKind::Internal ==> r@ == "INTERNAL_ERROR"@,
    {
        match self.kind {
            ErrorKind::InvalidToken => "INVALID_TOKEN",
            ErrorKind::InvalidSignature => "INVALID_SIGNATURE",
            ErrorKind::InvalidClaims => "INVALID_CLAIMS",
            ErrorKind::InvalidKey => "INVALID_KEY",
            ErrorKind::Internal => "INTERNAL_ERROR",
        }
    }

    /// The process exit code of each error kind.
    pub fn exit_code(&self) -> (r: i32)
        ensures
            r == match self.kind {
                ErrorKind::InvalidToken => 10i32,
                ErrorKind::InvalidSignature => 11i32,
                ErrorKind::InvalidClaims => 12i32,
                ErrorKind::InvalidKey => 13i32,
                ErrorKind::Internal => 14i32,
            },
    {
        match self.kind {
            ErrorKind::InvalidToken => 10,
            ErrorKind::InvalidSignature => 11,
            ErrorKind::InvalidClaims => 12,
            ErrorKind::InvalidKey => 13,
            ErrorKind::Internal => 14,
        }
    }
}

} // verus!
