//! JWT algorithm labels, the key kind each algorithm family expects, and
//! detection of the stored key-material format.

use vstd::prelude::*;

verus! {

/// A JWT signing/verification algorithm.
#[derive(Clone, Copy, Debug, PartialEq, Eq, Structural)]
pub enum JwtAlg {
    HS256,
    HS384,
    HS512,
    RS256,
    RS384,
    RS512,
    PS256,
    PS384,
    PS512,
    ES256,
    ES384,
    EdDSA,
}

/// The format of stored key material.
#[derive(Clone, Copy, Debug, PartialEq, Eq, Structural)]
pub enum KeyFormat {
    Pem,
    Der,
}

/// The key kind an algorithm family expects: HMAC algorithms use `hmac`
/// secrets, RSA and RSA-PSS use `rsa` keys, ECDSA uses `ec` keys, and EdDSA
/// uses `eddsa` keys.
pub open spec fn expected_kind_spec(alg: JwtAlg) -> Seq<char> {
    match alg {
        JwtAlg::HS256 | JwtAlg::HS384 | JwtAlg::HS512 => "hmac"@,
        JwtAlg::RS256 | JwtAlg::RS384 | JwtAlg::RS512 | JwtAlg::PS256 | JwtAlg::PS384
            | JwtAlg::PS512 => "rsa"@,
        JwtAlg::ES256 | JwtAlg::ES384 => "ec"@,
        JwtAlg::EdDSA => "eddsa"@,
    }
}

/// The key kind expected for this algorithm.
pub fn expected_kind(alg: JwtAlg) -> (r: String)
    ensures
        r@ == expected_kind_spec(alg),
{
    match alg {
        JwtAlg::HS256 | JwtAlg::HS384 | JwtAlg::HS512 => "hmac".to_owned(),
        JwtAlg::RS256 | JwtAlg::RS384 | JwtAlg::RS512 | JwtAlg::PS256 | JwtAlg::PS384
            | JwtAlg::PS512 => "rsa".to_owned(),
        JwtAlg::ES256 | JwtAlg::ES384 => "ec".to_owned(),
        JwtAlg::EdDSA => "eddsa".to_owned(),
    }
}

/// Whether the bytes open with the PEM armour `-----BEGIN`.
pub open spec fn is_pem_prefix(bs: Seq<u8>) -> bool {
    bs.len() >= 10 && bs[0] == 45u8 && bs[1] == 45u8 && bs[2] == 45u8 && bs[3] == 45u8
        && bs[4] == 45u8 && bs[5] == 66u8 && bs[6] == 69u8 && bs[7] == 71u8 && bs[8] == 73u8
        && bs[9] == 78u8
}

/// Detect whether key material is PEM (it opens with `-----BEGIN`) or DER.
pub fn detect_key_format(bytes: &[u8]) -> (r: KeyFormat)
    ensures
        r == (if is_pem_prefix(bytes@) {
            KeyFormat::Pem
        } else {
            KeyFormat::Der
        }),
{
    if bytes.len() >= 10 && bytes[0] == 45u8 && bytes[1] == 45u8 && bytes[2] == 45u8
        && bytes[3] == 45u8 && bytes[4] == 45u8 && bytes[5] == 66u8 && bytes[6] == 69u8
        && bytes[7] == 71u8 && bytes[8] == 73u8 && bytes[9] == 78u8 {
        KeyFormat::Pem
    } else {
        KeyFormat::Der
    }
}

} // verus!
