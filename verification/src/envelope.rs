//! The envelope scheme shared by the encrypted-file keychain and the vault
//! export: a 32-byte key derived from the passphrase with Argon2id over a
//! fresh 16-byte salt, and XChaCha20-Poly1305 with a fresh 24-byte nonce
//! over the payload; all binary fields travel base64url without padding.

use vstd::prelude::*;
use vstd::string::{StrSliceExecFns, StringExecFns};
use vstd::utf8::{encode_utf8, valid_utf8};

use base64::Engine;
use chacha20poly1305::aead::{Aead, KeyInit};

use crate::errors::{VaultError, VaultErrorKind};
use crate::snapshot::{VaultSnapshot, SnapshotV, EXPORT_VERSION};
use crate::codec::{decode_snapshot, enc_snapshot, encode_snapshot, parse_snapshot, snapshot_enc_wf};
use crate::text::{is_blank, str_eq, trim_str};

verus! {

/// The key-derivation parameters written beside an encrypted payload.
#[derive(Debug)]
pub struct KdfParams {
    pub name: String,
    pub mem_kib: u32,
    pub iterations: u32,
    pub parallelism: u32,
    pub salt: String,
}

/// The encrypted-at-rest wire form of a whole-vault snapshot.
#[derive(Debug)]
pub struct ExportBundle {
    pub version: u8,
    pub kdf: KdfParams,
    pub cipher: String,
    pub nonce: String,
    pub ciphertext: String,
}

/// One encrypted entry of the file keychain: the same envelope, holding one
/// secret.
#[derive(Debug)]
pub struct EncryptedEntry {
    pub version: u8,
    pub kdf: KdfParams,
    pub cipher: String,
    pub nonce: String,
    pub ciphertext: String,
}

/// The mathematical view of the key-derivation parameters.
pub ghost struct KdfV {
    pub name: Seq<char>,
    pub mem_kib: int,
    pub iterations: int,
    pub parallelism: int,
    pub salt: Seq<char>,
}

/// The mathematical view of an envelope (bundle or keychain entry).
pub ghost struct EnvelopeV {
    pub version: int,
    pub kdf: KdfV,
    pub cipher: Seq<char>,
    pub nonce: Seq<char>,
    pub ciphertext: Seq<char>,
}

impl View for KdfParams {
    type V = KdfV;

    open spec fn view(&self) -> KdfV {
        KdfV {
            name: self.name@,
            mem_kib: self.mem_kib as int,
            iterations: self.iterations as int,
            parallelism: self.parallelism as int,
            salt: self.salt@,
        }
    }
}

impl View for ExportBundle {
    type V = EnvelopeV;

    open spec fn view(&self) -> EnvelopeV {
        EnvelopeV {
            version: self.version as int,
            kdf: self.kdf@,
            cipher: self.cipher@,
            nonce: self.nonce@,
            ciphertext: self.ciphertext@,
        }
    }
}

impl View for EncryptedEntry {
    type V = EnvelopeV;

    open spec fn view(&self) -> EnvelopeV {
        EnvelopeV {
            version: self.version as int,
            kdf: self.kdf@,
            cipher: self.cipher@,
            nonce: self.nonce@,
            ciphertext: self.ciphertext@,
        }
    }
}

/// The 32-byte key Argon2id derives from a passphrase, salt and cost
/// parameters; a pure function of its arguments.
pub uninterp spec fn argon2id_of(pass: Seq<u8>, salt: Seq<u8>, m: u32, t: u32, p: u32) -> Seq<u8>;

/// The ciphertext-with-tag XChaCha20-Poly1305 produces from a key, nonce
/// and plaintext; a pure function of its arguments.
pub uninterp spec fn aead_seal_of(key: Seq<u8>, nonce: Seq<u8>, pt: Seq<u8>) -> Seq<u8>;

/// What XChaCha20-Poly1305 decryption yields for a key, nonce and
/// ciphertext: the plaintext when authentication passes, nothing otherwise.
pub uninterp spec fn aead_open_of(key: Seq<u8>, nonce: Seq<u8>, ct: Seq<u8>) -> Option<Seq<u8>>;

/// The base64url-without-padding rendering of bytes.
pub uninterp spec fn b64url_of(bs: Seq<u8>) -> Seq<char>;

/// What base64url-without-padding decoding yields: the bytes, or nothing on
/// malformed input.
pub uninterp spec fn b64url_decode_of(s: Seq<char>) -> Option<Seq<u8>>;

/// The cost-parameter ranges Argon2id accepts (with a 32-byte output).
pub open spec fn valid_kdf_params(m: int, t: int, p: int) -> bool {
    8 <= m && 1 <= t && 1 <= p <= 0xFFFFFF && m >= 8 * p
}

/// Relies on argon2::Params::new and argon2::Argon2::hash_password_into
/// with the Argon2id algorithm, version 0x13 and a 32-byte output: the
/// derived key is a function of the passphrase, salt and cost parameters
/// alone, and derivation succeeds exactly when the parameters, salt length
/// and passphrase length are within the crate's documented ranges. The
/// parallelism is bounded up front because the crate multiplies it by eight
/// before range-checking it, which would overflow on a larger value.
#[verifier::external_body]
fn derive_key(pass: &[u8], salt: &[u8], m: u32, t: u32, p: u32) -> (r: Option<Vec<u8>>)
    requires
        p <= 0xFFFFFF,
    ensures
        match r {
            Option::Some(k) => k@ == argon2id_of(pass@, salt@, m, t, p) && k@.len() == 32,
            Option::None => !(valid_kdf_params(m as int, t as int, p as int) && 8 <= salt@.len()
                <= 0xFFFF_FFFF && pass@.len() <= 0xFFFF_FFFF),
        },
        (valid_kdf_params(m as int, t as int, p as int) && 8 <= salt@.len() <= 0xFFFF_FFFF
            && pass@.len() <= 0xFFFF_FFFF) ==> r is Some,
{
    let params = match argon2::Params::new(m, t, p, None) {
        Ok(ps) => ps,
        Err(_) => {
            return None;
        },
    };
    let a = argon2::Argon2::new(argon2::Algorithm::Argon2id, argon2::Version::V0x13, params);
    let mut out = [0u8; 32];
    match a.hash_password_into(pass, salt, &mut out) {
        Ok(()) => Some(out.to_vec()),
        Err(_) => None,
    }
}

/// Relies on chacha20poly1305::XChaCha20Poly1305 encryption (Aead::encrypt):
/// the ciphertext is a function of key, nonce and plaintext alone, opens
/// back to the plaintext under the same key and nonce, and encryption
/// succeeds whenever the plaintext is under the cipher's block limit.
#[verifier::external_body]
fn aead_seal(key: &[u8], nonce: &[u8], pt: &[u8]) -> (r: Option<Vec<u8>>)
    requires
        key@.len() == 32,
        nonce@.len() == 24,
    ensures
        match r {
            Option::Some(ct) => ct@ == aead_seal_of(key@, nonce@, pt@) && aead_open_of(
                key@,
                nonce@,
                ct@,
            ) == Option::Some(pt@),
            Option::None => true,
        },
        pt@.len() < 0xFFFF_FFFF * 64 ==> r is Some,
{
    let cipher = chacha20poly1305::XChaCha20Poly1305::new(
        chacha20poly1305::Key::from_slice(key),
    );
    cipher.encrypt(chacha20poly1305::XNonce::from_slice(nonce), pt).ok()
}

/// Relies on chacha20poly1305::XChaCha20Poly1305 decryption (Aead::decrypt):
/// the outcome is a function of key, nonce and ciphertext alone; it fails
/// closed, yielding no partial plaintext.
#[verifier::external_body]
fn aead_open(key: &[u8], nonce: &[u8], ct: &[u8]) -> (r: Option<Vec<u8>>)
    requires
        key@.len() == 32,
        nonce@.len() == 24,
    ensures
        match r {
            Option::Some(pt) => aead_open_of(key@, nonce@, ct@) == Option::Some(pt@),
            Option::None => aead_open_of(key@, nonce@, ct@) is None,
        },
{
    let cipher = chacha20poly1305::XChaCha20Poly1305::new(
        chacha20poly1305::Key::from_slice(key),
    );
    cipher.decrypt(chacha20poly1305::XNonce::from_slice(nonce), ct).ok()
}

/// Relies on base64's URL_SAFE_NO_PAD engine (Engine::encode): the rendering
/// is a function of the bytes alone and decodes back to them.
#[verifier::external_body]
fn b64url_encode(bs: &[u8]) -> (r: String)
    ensures
        r@ == b64url_of(bs@),
        b64url_decode_of(r@) == Option::Some(bs@),
{
    base64::engine::general_purpose::URL_SAFE_NO_PAD.encode(bs)
}

/// Relies on base64's URL_SAFE_NO_PAD engine (Engine::decode): the outcome
/// is a function of the text alone.
#[verifier::external_body]
fn b64url_decode(s: &str) -> (r: Option<Vec<u8>>)
    ensures
        match r {
            Option::Some(v) => b64url_decode_of(s@) == Option::Some(v@),
            Option::None => b64url_decode_of(s@) is None,
        },
{
    base64::engine::general_purpose::URL_SAFE_NO_PAD.decode(s).ok()
}

/// Relies on rand::rngs::OsRng (RngCore::fill_bytes): sixteen bytes from
/// the operating system's generator; only the length is promised.
#[verifier::external_body]
fn random_salt() -> (r: Vec<u8>)
    ensures
        r@.len() == 16,
{
    let mut b = [0u8; 16];
    rand::RngCore::fill_bytes(&mut rand::rngs::OsRng, &mut b);
    b.to_vec()
}

/// Relies on rand::rngs::OsRng (RngCore::fill_bytes): twenty-four bytes
/// from the operating system's generator; only the length is promised.
#[verifier::external_body]
fn random_nonce() -> (r: Vec<u8>)
    ensures
        r@.len() == 24,
{
    let mut b = [0u8; 24];
    rand::RngCore::fill_bytes(&mut rand::rngs::OsRng, &mut b);
    b.to_vec()
}

/// Headers an envelope must carry, and a usable passphrase: the expected
/// version, KDF name and cipher name, and a non-blank passphrase.
pub open spec fn envelope_headers_ok(e: EnvelopeV, pass: Seq<char>) -> bool {
    e.version == 1 && e.kdf.name == "argon2id"@ && e.cipher == "xchacha20poly1305"@ && !is_blank(
        pass,
    )
}

/// What an envelope decrypts to under a passphrase: nothing unless the
/// headers match and the passphrase is non-blank; then the salt, nonce and
/// ciphertext are decoded, the key is derived, and the cipher opens the
/// payload — failing closed on a wrong passphrase or any tampering.
pub open spec fn envelope_opens_to(e: EnvelopeV, pass: Seq<char>) -> Option<Seq<u8>> {
    if !envelope_headers_ok(e, pass) {
        Option::None
    } else {
        match b64url_decode_of(e.kdf.salt) {
            Option::None => Option::None,
            Option::Some(salt) => match b64url_decode_of(e.nonce) {
                Option::None => Option::None,
                Option::Some(nonce) => match b64url_decode_of(e.ciphertext) {
                    Option::None => Option::None,
                    Option::Some(ct) => if valid_kdf_params(
                        e.kdf.mem_kib,
                        e.kdf.iterations,
                        e.kdf.parallelism,
                    ) && 8 <= salt.len() <= 0xFFFF_FFFF && encode_utf8(pass).len() <= 0xFFFF_FFFF
                        && nonce.len() == 24 && 0 <= e.kdf.mem_kib < 0x1_0000_0000 && 0
                        <= e.kdf.iterations < 0x1_0000_0000 && 0 <= e.kdf.parallelism
                        < 0x1_0000_0000 {
                        aead_open_of(
                            argon2id_of(
                                encode_utf8(pass),
                                salt,
                                e.kdf.mem_kib as u32,
                                e.kdf.iterations as u32,
                                e.kdf.parallelism as u32,
                            ),
                            nonce,
                            ct,
                        )
                    } else {
                        Option::None
                    },
                },
            },
        }
    }
}

/// The failure class when an envelope does not open: a header or passphrase
/// problem is invalid input; everything after that — a wrong passphrase,
/// tampering, corruption — is one undistinguished crypto failure.
pub open spec fn envelope_error_kind(e: EnvelopeV, pass: Seq<char>) -> VaultErrorKind {
    if !envelope_headers_ok(e, pass) {
        VaultErrorKind::InvalidInput
    } else {
        VaultErrorKind::CryptoFailure
    }
}

/// Encrypt a payload under a passphrase with fresh salt and nonce,
/// returning the envelope fields (KDF parameters, cipher name, nonce and
/// ciphertext, all encoded).
fn seal_payload(passphrase: &str, pt: &Vec<u8>) -> (r: Result<
    (KdfParams, String, String),
    VaultError,
>)
    ensures
        match r {
            Ok(parts) => ({
                let env = EnvelopeV {
                    version: 1,
                    kdf: parts.0@,
                    cipher: "xchacha20poly1305"@,
                    nonce: parts.1@,
                    ciphertext: parts.2@,
                };
                &&& !is_blank(passphrase@)
                &&& parts.0@.name == "argon2id"@
                &&& parts.0@.mem_kib == 65536
                &&& parts.0@.iterations == 3
                &&& parts.0@.parallelism == 1
                &&& envelope_opens_to(env, passphrase@) == Option::Some(pt@)
            }),
            Err(e) => {
                &&& (e.kind == VaultErrorKind::InvalidInput <==> is_blank(passphrase@))
                &&& (e.kind == VaultErrorKind::InvalidInput || e.kind
                    == VaultErrorKind::CryptoFailure)
            },
        },
        (!is_blank(passphrase@) && encode_utf8(passphrase@).len() <= 0xFFFF_FFFF && pt@.len()
            < 0xFFFF_FFFF * 64) ==> r is Ok,
{
    let t = trim_str(passphrase);
    if t.as_str().unicode_len() == 0 {
        return Err(VaultError::invalid_input("passphrase is required"));
    }
    let pass_bytes = passphrase.as_bytes_vec();
    if pass_bytes.len() > 0xFFFF_FFFFusize {
        return Err(VaultError::crypto_failure("passphrase too long"));
    }
    let salt = random_salt();
    let key = match derive_key(pass_bytes.as_slice(), salt.as_slice(), 65536, 3, 1) {
        Option::Some(k) => k,
        Option::None => {
            return Err(VaultError::crypto_failure("key derivation failed"));
        },
    };
    let nonce = random_nonce();
    let ct = match aead_seal(key.as_slice(), nonce.as_slice(), pt.as_slice()) {
        Option::Some(c) => c,
        Option::None => {
            return Err(VaultError::crypto_failure("encryption failed"));
        },
    };
    let kdf = KdfParams {
        name: "argon2id".to_owned(),
        mem_kib: 65536,
        iterations: 3,
        parallelism: 1,
        salt: b64url_encode(salt.as_slice()),
    };
    let nonce_s = b64url_encode(nonce.as_slice());
    let ct_s = b64url_encode(ct.as_slice());
    Ok((kdf, nonce_s, ct_s))
}

/// Decrypt an envelope under a passphrase, failing closed: the payload
/// comes back whole or not at all, and a wrong passphrase is not told apart
/// from corruption.
fn open_payload(
    passphrase: &str,
    version: u8,
    kdf: &KdfParams,
    cipher: &String,
    nonce: &String,
    ciphertext: &String,
) -> (r: Result<Vec<u8>, VaultError>)
    ensures
        ({
            let env = EnvelopeV {
                version: version as int,
                kdf: kdf@,
                cipher: cipher@,
                nonce: nonce@,
                ciphertext: ciphertext@,
            };
            match r {
                Ok(pt) => envelope_opens_to(env, passphrase@) == Option::Some(pt@),
                Err(e) => envelope_opens_to(env, passphrase@) is None && e.kind
                    == envelope_error_kind(env, passphrase@),
            }
        }),
{
    if version != 1 {
        return Err(VaultError::invalid_input("unsupported version"));
    }
    if !str_eq(kdf.name.as_str(), "argon2id") {
        return Err(VaultError::invalid_input("unsupported kdf"));
    }
    if !str_eq(cipher.as_str(), "xchacha20poly1305") {
        return Err(VaultError::invalid_input("unsupported cipher"));
    }
    let t = trim_str(passphrase);
    if t.as_str().unicode_len() == 0 {
        return Err(VaultError::invalid_input("passphrase is required"));
    }
    let salt = match b64url_decode(kdf.salt.as_str()) {
        Option::Some(v) => v,
        Option::None => {
            return Err(VaultError::crypto_failure("decode salt"));
        },
    };
    let nonce_b = match b64url_decode(nonce.as_str()) {
        Option::Some(v) => v,
        Option::None => {
            return Err(VaultError::crypto_failure("decode nonce"));
        },
    };
    let ct = match b64url_decode(ciphertext.as_str()) {
        Option::Some(v) => v,
        Option::None => {
            return Err(VaultError::crypto_failure("decode ciphertext"));
        },
    };
    let pass_bytes = passphrase.as_bytes_vec();
    if !(kdf.mem_kib >= 8 && kdf.iterations >= 1 && kdf.parallelism >= 1 && kdf.parallelism
        <= 0xFFFFFF && kdf.mem_kib >= 8 * kdf.parallelism && salt.len() >= 8 && salt.len()
        <= 0xFFFF_FFFFusize && pass_bytes.len() <= 0xFFFF_FFFFusize && nonce_b.len() == 24) {
        return Err(VaultError::crypto_failure("unusable envelope parameters"));
    }
    let key = match derive_key(
        pass_bytes.as_slice(),
        salt.as_slice(),
        kdf.mem_kib,
        kdf.iterations,
        kdf.parallelism,
    ) {
        Option::Some(k) => k,
        Option::None => {
            return Err(VaultError::crypto_failure("key derivation failed"));
        },
    };
    match aead_open(key.as_slice(), nonce_b.as_slice(), ct.as_slice()) {
        Option::Some(pt) => Ok(pt),
        Option::None => Err(VaultError::crypto_failure("decryption failed")),
    }
}

/// Encrypt one secret for the file keychain: a fresh envelope whose payload
/// is the secret's UTF-8 text.
pub fn encrypt_secret(passphrase: &str, secret: &str) -> (r: Result<EncryptedEntry, VaultError>)
    ensures
        match r {
            Ok(e) => !is_blank(passphrase@) && envelope_opens_to(e@, passphrase@) == Option::Some(
                encode_utf8(secret@),
            ),
            Err(err) => {
                &&& (err.kind == VaultErrorKind::InvalidInput <==> is_blank(passphrase@))
                &&& (err.kind == VaultErrorKind::InvalidInput || err.kind
                    == VaultErrorKind::CryptoFailure)
            },
        },
        (!is_blank(passphrase@) && encode_utf8(passphrase@).len() <= 0xFFFF_FFFF && encode_utf8(
            secret@,
        ).len() < 0xFFFF_FFFF * 64) ==> r is Ok,
{
    let pt = secret.as_bytes_vec();
    match seal_payload(passphrase, &pt) {
        Ok((kdf, nonce, ciphertext)) => {
            let e = EncryptedEntry {
                version: 1,
                kdf,
                cipher: "xchacha20poly1305".to_owned(),
                nonce,
                ciphertext,
            };
            Ok(e)
        },
        Err(e) => Err(e),
    }
}

/// Decrypt one file-keychain entry: the secret comes back exactly when the
/// envelope opens and holds well-formed text.
pub fn decrypt_secret(passphrase: &str, entry: &EncryptedEntry) -> (r: Result<String, VaultError>)
    ensures
        match r {
            Ok(s) => envelope_opens_to(entry@, passphrase@) == Option::Some(encode_utf8(s@)),
            Err(e) => {
                &&& match envelope_opens_to(entry@, passphrase@) {
                    Option::Some(pt) => !valid_utf8(pt),
                    Option::None => true,
                }
                &&& (envelope_opens_to(entry@, passphrase@) is None ==> e.kind
                    == envelope_error_kind(entry@, passphrase@))
                &&& (e.kind == VaultErrorKind::InvalidInput || e.kind
                    == VaultErrorKind::CryptoFailure)
            },
        },
{
    let pt = match open_payload(
        passphrase,
        entry.version,
        &entry.kdf,
        &entry.cipher,
        &entry.nonce,
        &entry.ciphertext,
    ) {
        Ok(v) => v,
        Err(e) => {
            return Err(e);
        },
    };
    match crate::codec::string_from_utf8(pt) {
        Option::Some(s) => Ok(s),
        Option::None => Err(VaultError::crypto_failure("decode keychain secret")),
    }
}

/// What a bundle decrypts and decodes to under a passphrase: the snapshot,
/// when the envelope opens, the payload parses, and the embedded snapshot
/// version is the expected one.
pub open spec fn bundle_opens_to_snapshot(b: EnvelopeV, pass: Seq<char>) -> Option<SnapshotV> {
    match envelope_opens_to(b, pass) {
        Option::None => Option::None,
        Option::Some(pt) => match parse_snapshot(pt) {
            Option::None => Option::None,
            Option::Some(s) => if s.version == 1 {
                Option::Some(s)
            } else {
                Option::None
            },
        },
    }
}

/// The failure class when a bundle does not yield a snapshot.
pub open spec fn bundle_error_kind(b: EnvelopeV, pass: Seq<char>) -> VaultErrorKind {
    match envelope_opens_to(b, pass) {
        Option::None => envelope_error_kind(b, pass),
        Option::Some(pt) => match parse_snapshot(pt) {
            Option::None => VaultErrorKind::CryptoFailure,
            Option::Some(s) => VaultErrorKind::InvalidInput,
        },
    }
}

/// Encrypt a snapshot into a portable bundle with a fresh salt and nonce.
pub fn encrypt_snapshot(snapshot: &VaultSnapshot, passphrase: &str) -> (r: Result<
    ExportBundle,
    VaultError,
>)
    ensures
        match r {
            Ok(b) => !is_blank(passphrase@) && snapshot_enc_wf(snapshot@) && envelope_opens_to(
                b@,
                passphrase@,
            ) == Option::Some(enc_snapshot(snapshot@)),
            Err(err) => {
                &&& (err.kind == VaultErrorKind::InvalidInput <==> is_blank(passphrase@))
                &&& (err.kind == VaultErrorKind::InvalidInput || err.kind
                    == VaultErrorKind::CryptoFailure)
            },
        },
        (!is_blank(passphrase@) && encode_utf8(passphrase@).len() <= 0xFFFF_FFFF && enc_snapshot(
            snapshot@,
        ).len() < 0xFFFF_FFFF * 64) ==> r is Ok,
{
    let t = trim_str(passphrase);
    if t.as_str().unicode_len() == 0 {
        return Err(VaultError::invalid_input("passphrase is required"));
    }
    let pt = encode_snapshot(snapshot);
    match seal_payload(passphrase, &pt) {
        Ok((kdf, nonce, ciphertext)) => {
            let b = ExportBundle {
                version: 1,
                kdf,
                cipher: "xchacha20poly1305".to_owned(),
                nonce,
                ciphertext,
            };
            Ok(b)
        },
        Err(e) => Err(e),
    }
}

/// Decrypt a portable bundle back into a snapshot, rejecting unsupported
/// headers and reporting a wrong passphrase and corruption identically.
pub fn decrypt_snapshot(bundle: &ExportBundle, passphrase: &str) -> (r: Result<
    VaultSnapshot,
    VaultError,
>)
    ensures
        match r {
            Ok(s) => bundle_opens_to_snapshot(bundle@, passphrase@) == Option::Some(s@),
            Err(e) => bundle_opens_to_snapshot(bundle@, passphrase@) is None && e.kind
                == bundle_error_kind(bundle@, passphrase@),
        },
{
    let pt = match open_payload(
        passphrase,
        bundle.version,
        &bundle.kdf,
        &bundle.cipher,
        &bundle.nonce,
        &bundle.ciphertext,
    ) {
        Ok(v) => v,
        Err(e) => {
            return Err(e);
        },
    };
    let snap = match decode_snapshot(&pt) {
        Option::Some(s) => s,
        Option::None => {
            return Err(VaultError::crypto_failure("parse vault snapshot"));
        },
    };
    if snap.version != EXPORT_VERSION {
        return Err(VaultError::invalid_input("unsupported snapshot version"));
    }
    Ok(snap)
}

} // verus!
