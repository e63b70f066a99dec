//! Plain-value forms of the command layer's requests: verification options,
//! output configuration, standard claims, key-generation requests, and the
//! small formatting helpers the command layer shares.

use vstd::prelude::*;
use vstd::string::StringExecFns;

use crate::alg::{JwtAlg, KeyFormat};
use crate::errors::{AppError, ErrorKind};
use crate::text::{eq_ignore_ascii, str_eq, str_ieq, strings_view, trim_spec, trim_str};

verus! {

/// The options common to every verification request.
pub struct VerifyCommonArgs {
    pub secret: Option<String>,
    pub key: Option<String>,
    pub jwks: Option<String>,
    pub key_format: Option<KeyFormat>,
    pub kid: Option<String>,
    pub allow_single_jwk: bool,
    pub project: Option<String>,
    pub key_id: Option<String>,
    pub key_name: Option<String>,
    pub try_all_keys: bool,
    pub ignore_exp: bool,
    pub leeway_secs: u64,
    pub iss: Option<String>,
    pub sub: Option<String>,
    pub aud: Vec<String>,
    pub require: Vec<String>,
    pub explain: bool,
    pub alg: Option<JwtAlg>,
}

/// A verification request: the common options plus the token itself.
pub struct VerifyArgs {
    pub verify: VerifyCommonArgs,
    pub token: String,
}

/// Whether a decode request also asks for verification: any key source,
/// project selector, algorithm, or validation option away from its default.
pub fn has_verify_request(args: &VerifyCommonArgs) -> (r: bool)
    ensures
        r == (args.secret is Some || args.key is Some || args.jwks is Some || args.project is Some
            || args.alg is Some || args.try_all_keys || args.ignore_exp || args.leeway_secs != 30
            || args.iss is Some || args.sub is Some || args.aud@.len() != 0
            || args.require@.len() != 0 || args.explain),
{
    args.secret.is_some() || args.key.is_some() || args.jwks.is_some() || args.project.is_some()
        || args.alg.is_some() || args.try_all_keys || args.ignore_exp || args.leeway_secs != 30
        || args.iss.is_some() || args.sub.is_some() || args.aud.len() != 0
        || args.require.len() != 0 || args.explain
}

/// How command output is rendered.
#[derive(Clone, Copy, Debug, PartialEq, Eq, Structural)]
pub enum OutputMode {
    Json,
    Text,
}

/// The output rendering configuration.
#[derive(Clone, Copy, Debug, PartialEq, Eq, Structural)]
pub struct OutputConfig {
    pub mode: OutputMode,
    pub quiet: bool,
    pub no_color: bool,
    pub verbose: bool,
}

/// The standard claims an encode request can set.
pub struct StandardClaims {
    pub iss: Option<String>,
    pub sub: Option<String>,
    pub aud: Vec<String>,
    pub jti: Option<String>,
    pub iat: Option<String>,
    pub nbf: Option<String>,
    pub exp: Option<String>,
    pub no_iat: bool,
}

/// An elliptic curve for key generation.
#[derive(Clone, Copy, Debug, PartialEq, Eq, Structural)]
pub enum EcCurve {
    P256,
    P384,
}

/// A key-generation request.
#[derive(Clone, Copy, Debug, PartialEq, Eq, Structural)]
pub enum KeyGenSpec {
    Hmac { bytes: usize },
    Rsa { bits: usize },
    Ec { curve: EcCurve },
    EdDsa,
}

/// The default HMAC secret size in bytes.
pub const DEFAULT_HMAC_BYTES: usize = 32;

/// The default RSA modulus size in bits.
pub const DEFAULT_RSA_BITS: usize = 2048;

/// The curve a selector names: nothing given is P-256; `p-256`/`p256` and
/// `p-384`/`p384` are matched after trimming, ignoring ASCII case.
pub open spec fn ec_curve_spec(value: Option<Seq<char>>) -> Option<EcCurve> {
    match value {
        Option::None => Option::Some(EcCurve::P256),
        Option::Some(s) => {
            let t = trim_spec(s);
            if str_ieq(t, "p-256"@) || str_ieq(t, "p256"@) {
                Option::Some(EcCurve::P256)
            } else if str_ieq(t, "p-384"@) || str_ieq(t, "p384"@) {
                Option::Some(EcCurve::P384)
            } else {
                Option::None
            }
        },
    }
}

/// The view of an optional borrowed selector.
pub open spec fn opt_str_view(o: Option<&str>) -> Option<Seq<char>> {
    match o {
        Option::Some(s) => Option::Some(s@),
        Option::None => Option::None,
    }
}

/// Parse an elliptic-curve selector.
pub fn parse_ec_curve(value: Option<&str>) -> (r: Result<EcCurve, AppError>)
    ensures
        match r {
            Ok(c) => ec_curve_spec(opt_str_view(value)) == Option::Some(c),
            Err(e) => ec_curve_spec(opt_str_view(value)) is None && e.kind
                == ErrorKind::InvalidKey,
        },
{
    match value {
        Option::None => Ok(EcCurve::P256),
        Option::Some(s) => {
            let t = trim_str(s);
            if eq_ignore_ascii(t.as_str(), "p-256") || eq_ignore_ascii(t.as_str(), "p256") {
                Ok(EcCurve::P256)
            } else if eq_ignore_ascii(t.as_str(), "p-384") || eq_ignore_ascii(t.as_str(), "p384") {
                Ok(EcCurve::P384)
            } else {
                Err(AppError::invalid_key(
                    "unsupported EC curve (use P-256 or P-384)".to_owned(),
                ))
            }
        },
    }
}

/// What a key-generation request resolves to, and the label of the material
/// format it will produce; `None` is any rejected combination, including
/// options that do not belong to the requested kind.
pub open spec fn keygen_spec_of(
    kind: Seq<char>,
    hmac_bytes: Option<usize>,
    rsa_bits: Option<usize>,
    ec_curve: Option<Seq<char>>,
) -> Option<(KeyGenSpec, Seq<char>)> {
    if kind == "hmac"@ {
        if rsa_bits is Some || ec_curve is Some {
            Option::None
        } else {
            Option::Some(
                (
                    KeyGenSpec::Hmac {
                        bytes: match hmac_bytes {
                            Option::Some(b) => b,
                            Option::None => DEFAULT_HMAC_BYTES,
                        },
                    },
                    "base64url"@,
                ),
            )
        }
    } else if kind == "rsa"@ {
        if hmac_bytes is Some || ec_curve is Some {
            Option::None
        } else {
            Option::Some(
                (
                    KeyGenSpec::Rsa {
                        bits: match rsa_bits {
                            Option::Some(b) => b,
                            Option::None => DEFAULT_RSA_BITS,
                        },
                    },
                    "pem"@,
                ),
            )
        }
    } else if kind == "ec"@ {
        if hmac_bytes is Some || rsa_bits is Some {
            Option::None
        } else {
            match ec_curve_spec(ec_curve) {
                Option::Some(c) => Option::Some((KeyGenSpec::Ec { curve: c }, "pem"@)),
                Option::None => Option::None,
            }
        }
    } else if kind == "eddsa"@ {
        if hmac_bytes is Some || rsa_bits is Some || ec_curve is Some {
            Option::None
        } else {
            Option::Some((KeyGenSpec::EdDsa, "pem"@))
        }
    } else {
        Option::None
    }
}

/// Resolve a key-generation request from its kind and options, returning
/// the generation parameters and the label of the produced format.
pub fn build_keygen_spec(
    kind: &str,
    hmac_bytes: Option<usize>,
    rsa_bits: Option<usize>,
    ec_curve: Option<String>,
) -> (r: Result<(KeyGenSpec, &'static str), AppError>)
    ensures
        ({
            let want = keygen_spec_of(kind@, hmac_bytes, rsa_bits, crate::text::opt_view(ec_curve));
            match r {
                Ok(sp) => want == Option::Some((sp.0, sp.1@)),
                Err(e) => want is None && e.kind == ErrorKind::InvalidKey,
            }
        }),
{
    if str_eq(kind, "hmac") {
        if rsa_bits.is_some() || ec_curve.is_some() {
            return Err(AppError::invalid_key(
                "--rsa-bits/--ec-curve are only valid for RSA/EC keys".to_owned(),
            ));
        }
        let bytes = match hmac_bytes {
            Option::Some(b) => b,
            Option::None => DEFAULT_HMAC_BYTES,
        };
        return Ok((KeyGenSpec::Hmac { bytes }, "base64url"));
    }
    if str_eq(kind, "rsa") {
        if hmac_bytes.is_some() || ec_curve.is_some() {
            return Err(AppError::invalid_key(
                "--hmac-bytes/--ec-curve are only valid for HMAC/EC keys".to_owned(),
            ));
        }
        let bits = match rsa_bits {
            Option::Some(b) => b,
            Option::None => DEFAULT_RSA_BITS,
        };
        return Ok((KeyGenSpec::Rsa { bits }, "pem"));
    }
    if str_eq(kind, "ec") {
        if hmac_bytes.is_some() || rsa_bits.is_some() {
            return Err(AppError::invalid_key(
                "--hmac-bytes/--rsa-bits are only valid for HMAC/RSA keys".to_owned(),
            ));
        }
        let curve = match &ec_curve {
            Option::Some(c) => match parse_ec_curve(Option::Some(c.as_str())) {
                Ok(cv) => cv,
                Err(e) => {
                    return Err(e);
                },
            },
            Option::None => EcCurve::P256,
        };
        return Ok((KeyGenSpec::Ec { curve }, "pem"));
    }
    if str_eq(kind, "eddsa") {
        if hmac_bytes.is_some() || rsa_bits.is_some() || ec_curve.is_some() {
            return Err(AppError::invalid_key(
                "generation options are not valid for EdDSA keys".to_owned(),
            ));
        }
        return Ok((KeyGenSpec::EdDsa, "pem"));
    }
    if str_eq(kind, "jwks") {
        return Err(AppError::invalid_key(
            "JWKS generation is not supported; paste JWKS JSON instead".to_owned(),
        ));
    }
    Err(AppError::invalid_key("unsupported key kind for generation".to_owned()))
}

/// Tags joined with commas.
pub open spec fn join_tags(ts: Seq<Seq<char>>) -> Seq<char>
    decreases ts.len(),
{
    if ts.len() == 0 {
        Seq::empty()
    } else if ts.len() == 1 {
        ts[0]
    } else {
        join_tags(ts.drop_last()) + ","@ + ts.last()
    }
}

/// Render a tag list for display: a dash when empty, else the tags joined
/// with commas.
pub fn format_tags(tags: &Vec<String>) -> (r: String)
    ensures
        tags@.len() == 0 ==> r@ == "-"@,
        tags@.len() > 0 ==> r@ == join_tags(strings_view(tags@)),
{
    if tags.len() == 0 {
        return "-".to_owned();
    }
    let ghost tv = strings_view(tags@);
    let mut acc: String = tags[0].clone();
    let mut i: usize = 1;
    while i < tags.len()
        invariant
            1 <= i <= tags@.len(),
            tv == strings_view(tags@),
            tv.len() == tags@.len(),
            acc@ == join_tags(tv.subrange(0, i as int)),
        decreases tags@.len() - i,
    {
        let ghost pre = tv.subrange(0, i as int);
        acc = acc.concat(",").concat(tags[i].as_str());
        proof {
            assert(tv.subrange(0, i + 1).drop_last() =~= pre);
            assert(tv.subrange(0, i + 1).last() == tags@[i as int]@);
        }
        i = i + 1;
    }
    proof {
        assert(tv.subrange(0, tv.len() as int) =~= tv);
    }
    acc
}

/// An optional display value, with a dash for nothing.
pub fn opt_or_dash<'a>(value: Option<&'a str>) -> (r: &'a str)
    ensures
        r@ == match value {
            Option::Some(v) => v@,
            Option::None => "-"@,
        },
{
    match value {
        Option::Some(v) => v,
        Option::None => "-",
    }
}

} // verus!
