use ::aws_lc_rs::encoding::AsDer as _;
use ::aws_lc_rs::signature::KeyPair as _;
use vstd::prelude::*;

use crate::crypt::errors::{
    ConvertPrivateKeyToDERErr, ConvertPrivateKeyToPEMErr, ConvertPublicKeyToDERErr,
    ConvertPublicKeyToPEMErr, CryptErr, DecodePEMErr, GenerateRSAKeyPairErr, ParsePrivateKeyErr,
    ParsePublicKeyErr, SignDataErr, UnsupportedPEMLabelErr,
};
use crate::text::str_equals;

verus! {

/// PEM label of a PKCS#1 `RSAPrivateKey` (keys provisioned before PKCS#8 was used).
pub const PKCS1_LABEL: &'static str = "RSA PRIVATE KEY";

/// PEM label of a PKCS#8 `PrivateKeyInfo`, what key generation writes.
pub const PKCS8_LABEL: &'static str = "PRIVATE KEY";

/// PEM label of an SPKI `SubjectPublicKeyInfo`, the only public-key format read or
/// written.
pub const SPKI_LABEL: &'static str = "PUBLIC KEY";

/// The RSASSA-PKCS1-v1_5 signature schemes the agent uses.
#[derive(Debug, Clone, Copy, PartialEq, Eq, Structural)]
pub enum RsaAlg {
    /// SHA-256 (RFC 7518 section 3.2).
    Rs256,
    /// SHA-512 (RFC 7518 section 3.3).
    Rs512,
}

// ================================ PEM ========================================= //

/// ASCII whitespace as `u8::is_ascii_whitespace` defines it: space, tab, line feed,
/// form feed and carriage return.
pub open spec fn is_ascii_ws(b: u8) -> bool {
    b == 0x20 || b == 0x09 || b == 0x0a || b == 0x0c || b == 0x0d
}

/// `s` without its trailing ASCII whitespace.
pub open spec fn spec_trim_end(s: Seq<u8>) -> Seq<u8>
    decreases s.len(),
{
    if s.len() == 0 || !is_ascii_ws(s.last()) {
        s
    } else {
        spec_trim_end(s.drop_last())
    }
}

/// The bytes without their trailing ASCII whitespace (PEM files often end with extra
/// newlines, which the PEM decoder rejects).
pub fn trim_trailing_whitespace(bytes: &[u8]) -> (r: &[u8])
    ensures
        r@ == spec_trim_end(bytes@),
{
    let mut end = bytes.len();
    assert(bytes@.take(end as int) =~= bytes@);
    while end > 0
        invariant
            end <= bytes@.len(),
            spec_trim_end(bytes@) == spec_trim_end(bytes@.take(end as int)),
        ensures
            end <= bytes@.len(),
            spec_trim_end(bytes@) == spec_trim_end(bytes@.take(end as int)),
            end == 0 || !is_ascii_ws(bytes@[end - 1]),
        decreases end,
    {
        let b = bytes[end - 1];
        if !(b == 0x20 || b == 0x09 || b == 0x0a || b == 0x0c || b == 0x0d) {
            break;
        }
        proof {
            assert(bytes@.take(end as int).drop_last() =~= bytes@.take(end - 1));
        }
        end = end - 1;
    }
    proof {
        if end > 0 {
            assert(bytes@.take(end as int).last() == bytes@[end - 1]);
        }
        assert(bytes@.subrange(0, end as int) =~= bytes@.take(end as int));
    }
    vstd::slice::slice_subrange(bytes, 0, end)
}

/// The label and the decoded bytes of a PEM document, or `None` when it is not one.
pub uninterp spec fn spec_pem_decode(pem: Seq<u8>) -> Option<(Seq<char>, Seq<u8>)>;

/// `pem_rfc7468::decode_vec`: a strict RFC 7468 decode of `pem` into its label and
/// bytes. Claimed: whether it succeeds and what it yields are a function of the input.
#[verifier::external_body]
fn pem_decode_vec(pem: &[u8]) -> (r: Result<(String, Vec<u8>), ::pem_rfc7468::Error>)
    ensures
        r is Ok <==> spec_pem_decode(pem@) is Some,
        r matches Ok((label, der)) ==> spec_pem_decode(pem@) == Some((label@, der@)),
{
    ::pem_rfc7468::decode_vec(pem).map(|(label, der)| (label.to_string(), der))
}

/// The PEM text of `der` under `label`, LF line endings, or `None` when encoding fails.
pub uninterp spec fn spec_pem_encode(label: Seq<char>, der: Seq<u8>) -> Option<Seq<char>>;

/// `pem_rfc7468::encode_string` with LF line endings. Claimed: whether it succeeds and
/// what it yields are a function of the label and the bytes.
#[verifier::external_body]
fn pem_encode_string(label: &str, der: &[u8]) -> (r: Result<String, ::pem_rfc7468::Error>)
    ensures
        r is Ok <==> spec_pem_encode(label@, der@) is Some,
        r matches Ok(s) ==> spec_pem_encode(label@, der@) == Some(s@),
{
    ::pem_rfc7468::encode_string(label, ::pem_rfc7468::LineEnding::LF, der)
}

/// Decode a PEM document into its label and bytes, after trimming trailing ASCII
/// whitespace.
pub fn decode_pem(pem: &[u8]) -> (r: Result<(String, Vec<u8>), CryptErr>)
    ensures
        match spec_pem_decode(spec_trim_end(pem@)) {
            Some((label, der)) => r matches Ok((l, d)) && l@ == label && d@ == der,
            None => r matches Err(CryptErr::DecodePEMErr(_)),
        },
{
    match pem_decode_vec(trim_trailing_whitespace(pem)) {
        Ok(decoded) => Ok(decoded),
        Err(e) => Err(CryptErr::DecodePEMErr(DecodePEMErr { source: e })),
    }
}

/// The error for a PEM label the agent does not read.
pub fn unsupported_pem_label(label: &str) -> (r: CryptErr)
    ensures
        r matches CryptErr::UnsupportedPEMLabelErr(e) && e.label@ == label@,
{
    CryptErr::UnsupportedPEMLabelErr(UnsupportedPEMLabelErr { label: label.to_owned() })
}

/// The SPKI bytes of a public-key PEM; any other label is refused.
pub fn decode_spki_pem(pem: &[u8]) -> (r: Result<Vec<u8>, CryptErr>)
    ensures
        match spec_pem_decode(spec_trim_end(pem@)) {
            Some((label, der)) => if label == SPKI_LABEL@ {
                r matches Ok(d) && d@ == der
            } else {
                r matches Err(CryptErr::UnsupportedPEMLabelErr(e)) && e.label@ == label
            },
            None => r matches Err(CryptErr::DecodePEMErr(_)),
        },
{
    let (label, der) = decode_pem(pem)?;
    if !str_equals(label.as_str(), SPKI_LABEL) {
        return Err(unsupported_pem_label(label.as_str()));
    }
    Ok(der)
}

// ================================ KEYS ======================================== //

/// How a private key's DER bytes are framed.
#[derive(Debug, Clone, Copy, PartialEq, Eq, Structural)]
pub enum PrivateKeyFormat {
    /// A PKCS#1 `RSAPrivateKey`.
    Pkcs1,
    /// A PKCS#8 `PrivateKeyInfo`.
    Pkcs8,
}

/// An RSA key pair held as its DER encodings: the private key as PKCS#8 and its
/// public key as SPKI, both as aws-lc serializes them.
#[derive(Debug, Clone)]
pub struct RsaKeyPair {
    pub pkcs8_der: Vec<u8>,
    pub spki_der: Vec<u8>,
}

/// An RSA public key held as its SPKI DER, as aws-lc serializes it.
#[derive(Debug, Clone)]
pub struct RsaPublicKey {
    pub spki_der: Vec<u8>,
}

/// The RSA key sizes that key generation offers.
#[derive(Debug, Clone, Copy, PartialEq, Eq, Structural)]
pub enum RsaKeySize {
    Rsa2048,
    Rsa3072,
    Rsa4096,
    Rsa8192,
}

/// Whether `der` is a PKCS#1 `RSAPrivateKey` that aws-lc accepts.
pub uninterp spec fn spec_pkcs1_parses(der: Seq<u8>) -> bool;

/// Whether `der` is a PKCS#8 RSA `PrivateKeyInfo` that aws-lc accepts.
pub uninterp spec fn spec_pkcs8_parses(der: Seq<u8>) -> bool;

/// Whether `der` is an RSA public key (SPKI or PKCS#1) that aws-lc accepts.
pub uninterp spec fn spec_public_key_parses(der: Seq<u8>) -> bool;

/// Whether a private key of `format` parses from `der`.
pub open spec fn spec_private_key_parses(format: PrivateKeyFormat, der: Seq<u8>) -> bool {
    match format {
        PrivateKeyFormat::Pkcs1 => spec_pkcs1_parses(der),
        PrivateKeyFormat::Pkcs8 => spec_pkcs8_parses(der),
    }
}

/// The (PKCS#8, SPKI) encodings that aws-lc gives a private key parsed from `der`;
/// `None` when it cannot serialize them.
pub uninterp spec fn spec_private_key_ders(format: PrivateKeyFormat, der: Seq<u8>) -> Option<(Seq<u8>, Seq<u8>)>;

/// The SPKI encoding that aws-lc gives a public key parsed from `der`; `None` when it
/// cannot serialize it.
pub uninterp spec fn spec_public_key_spki(der: Seq<u8>) -> Option<Seq<u8>>;

/// `KeyPair::from_der` (PKCS#1) or `KeyPair::from_pkcs8`, by `format`, with the parsed
/// key converted to plain DER through `AsDer::<Pkcs8V1Der>::as_der` and
/// `public_key().as_der()` (SPKI). Claimed: parsing succeeds exactly when the bytes
/// are a key aws-lc accepts, and the two encodings are a function of the input.
#[verifier::external_body]
fn private_key_ders(format: PrivateKeyFormat, der: &[u8]) -> (r: Result<Result<(Vec<u8>, Vec<u8>), ::aws_lc_rs::error::Unspecified>, ::aws_lc_rs::error::KeyRejected>)
    ensures
        format == PrivateKeyFormat::Pkcs1 ==> (r is Ok <==> spec_pkcs1_parses(der@)),
        format == PrivateKeyFormat::Pkcs8 ==> (r is Ok <==> spec_pkcs8_parses(der@)),
        r matches Ok(inner) ==> match spec_private_key_ders(format, der@) {
            Some((p, s)) => inner matches Ok((pd, sd)) && pd@ == p && sd@ == s,
            None => inner is Err,
        },
{
    let key = match format {
        PrivateKeyFormat::Pkcs1 => ::aws_lc_rs::rsa::KeyPair::from_der(der)?,
        PrivateKeyFormat::Pkcs8 => ::aws_lc_rs::rsa::KeyPair::from_pkcs8(der)?,
    };
    let pkcs8: Result<::aws_lc_rs::encoding::Pkcs8V1Der<'static>, _> = key.as_der();
    let spki: Result<::aws_lc_rs::encoding::PublicKeyX509Der<'static>, _> = key.public_key().as_der();
    Ok(pkcs8.and_then(|p| spki.map(|s| (p.as_ref().to_vec(), s.as_ref().to_vec()))))
}

/// `PublicKey::from_der`, with the parsed key converted to plain DER through
/// `AsDer::<PublicKeyX509Der>::as_der`. Claimed: parsing succeeds exactly when the
/// bytes are a key aws-lc accepts, and the SPKI encoding is a function of the input.
#[verifier::external_body]
fn public_key_spki(der: &[u8]) -> (r: Result<Result<Vec<u8>, ::aws_lc_rs::error::Unspecified>, ::aws_lc_rs::error::KeyRejected>)
    ensures
        r is Ok <==> spec_public_key_parses(der@),
        r matches Ok(inner) ==> match spec_public_key_spki(der@) {
            Some(s) => inner matches Ok(sd) && sd@ == s,
            None => inner is Err,
        },
{
    let key = ::aws_lc_rs::rsa::PublicKey::from_der(der)?;
    let spki: Result<::aws_lc_rs::encoding::PublicKeyX509Der<'static>, _> = key.as_der();
    Ok(spki.map(|s| s.as_ref().to_vec()))
}

/// What reading a private key of `format` from `der` gives: `None` for bytes that do
/// not parse, else the key's two encodings, or `None` when they cannot be made.
pub open spec fn spec_private_key_result(format: PrivateKeyFormat, der: Seq<u8>, r: Result<RsaKeyPair, CryptErr>) -> bool {
    if !spec_private_key_parses(format, der) {
        r matches Err(CryptErr::ParsePrivateKeyErr(_))
    } else {
        match spec_private_key_ders(format, der) {
            Some((p, s)) => r matches Ok(k) && k.pkcs8_der@ == p && k.spki_der@ == s,
            None => r matches Err(CryptErr::ConvertPrivateKeyToDERErr(_)),
        }
    }
}

/// A private key from its DER bytes, by PEM label: PKCS#1 or PKCS#8; another label is
/// refused.
pub fn private_key_from_der(label: &str, der: &[u8]) -> (r: Result<RsaKeyPair, CryptErr>)
    ensures
        label@ == PKCS1_LABEL@ ==> spec_private_key_result(PrivateKeyFormat::Pkcs1, der@, r),
        label@ == PKCS8_LABEL@ ==> spec_private_key_result(PrivateKeyFormat::Pkcs8, der@, r),
        !(label@ == PKCS1_LABEL@ || label@ == PKCS8_LABEL@) ==> (r matches Err(
            CryptErr::UnsupportedPEMLabelErr(e),
        ) && e.label@ == label@),
{
    proof {
        reveal_strlit("RSA PRIVATE KEY");
        reveal_strlit("PRIVATE KEY");
        assert(PKCS1_LABEL@.len() != PKCS8_LABEL@.len());
    }
    let format = if str_equals(label, PKCS1_LABEL) {
        PrivateKeyFormat::Pkcs1
    } else if str_equals(label, PKCS8_LABEL) {
        PrivateKeyFormat::Pkcs8
    } else {
        return Err(unsupported_pem_label(label));
    };
    match private_key_ders(format, der) {
        Ok(Ok((pkcs8_der, spki_der))) => Ok(RsaKeyPair { pkcs8_der, spki_der }),
        Ok(Err(e)) => Err(CryptErr::ConvertPrivateKeyToDERErr(ConvertPrivateKeyToDERErr { source: e })),
        Err(e) => Err(CryptErr::ParsePrivateKeyErr(ParsePrivateKeyErr { source: e })),
    }
}

/// A private key from its PEM text (PKCS#1 or PKCS#8).
pub fn parse_private_key_pem(pem: &[u8]) -> (r: Result<RsaKeyPair, CryptErr>)
    ensures
        match spec_pem_decode(spec_trim_end(pem@)) {
            Some((label, der)) => {
                &&& label == PKCS1_LABEL@ ==> spec_private_key_result(PrivateKeyFormat::Pkcs1, der, r)
                &&& label == PKCS8_LABEL@ ==> spec_private_key_result(PrivateKeyFormat::Pkcs8, der, r)
                &&& !(label == PKCS1_LABEL@ || label == PKCS8_LABEL@) ==> (r matches Err(
                    CryptErr::UnsupportedPEMLabelErr(e),
                ) && e.label@ == label)
            },
            None => r matches Err(CryptErr::DecodePEMErr(_)),
        },
{
    let (label, der) = decode_pem(pem)?;
    private_key_from_der(label.as_str(), der.as_slice())
}

/// What reading a public key from `der` gives.
pub open spec fn spec_public_key_result(der: Seq<u8>, r: Result<RsaPublicKey, CryptErr>) -> bool {
    if !spec_public_key_parses(der) {
        r matches Err(CryptErr::ParsePublicKeyErr(_))
    } else {
        match spec_public_key_spki(der) {
            Some(s) => r matches Ok(k) && k.spki_der@ == s,
            None => r matches Err(CryptErr::ConvertPublicKeyToDERErr(_)),
        }
    }
}

/// A public key from its SPKI bytes.
pub fn public_key_from_spki_der(der: &[u8]) -> (r: Result<RsaPublicKey, CryptErr>)
    ensures
        spec_public_key_result(der@, r),
{
    match public_key_spki(der) {
        Ok(Ok(spki_der)) => Ok(RsaPublicKey { spki_der }),
        Ok(Err(e)) => Err(CryptErr::ConvertPublicKeyToDERErr(ConvertPublicKeyToDERErr { source: e })),
        Err(e) => Err(CryptErr::ParsePublicKeyErr(ParsePublicKeyErr { source: e })),
    }
}

/// A public key from its PEM text (SPKI armor only).
pub fn parse_public_key_pem(pem: &[u8]) -> (r: Result<RsaPublicKey, CryptErr>)
    ensures
        match spec_pem_decode(spec_trim_end(pem@)) {
            Some((label, der)) => if label == SPKI_LABEL@ {
                spec_public_key_result(der, r)
            } else {
                r matches Err(CryptErr::UnsupportedPEMLabelErr(e)) && e.label@ == label
            },
            None => r matches Err(CryptErr::DecodePEMErr(_)),
        },
{
    let der = decode_spki_pem(pem)?;
    public_key_from_spki_der(der.as_slice())
}

// ============================= FINGERPRINT ==================================== //

/// The SHA-256 digest of `data`.
pub uninterp spec fn spec_sha256(data: Seq<u8>) -> Seq<u8>;

/// `aws_lc_rs::digest::digest(&SHA256, data)`: the 32-byte SHA-256 digest, a function
/// of the data.
#[verifier::external_body]
fn sha256(data: &[u8]) -> (r: Vec<u8>)
    ensures
        r@ == spec_sha256(data@),
        r@.len() == 32,
{
    ::aws_lc_rs::digest::digest(&::aws_lc_rs::digest::SHA256, data).as_ref().to_vec()
}

/// The lowercase hexadecimal digit of `n` (below 16).
pub open spec fn hex_digit(n: int) -> char {
    if n < 10 {
        (('0' as int) + n) as char
    } else {
        (('a' as int) + n - 10) as char
    }
}

/// Two lowercase hexadecimal digits per byte, most significant first.
pub open spec fn spec_hex(bytes: Seq<u8>) -> Seq<char>
    decreases bytes.len(),
{
    if bytes.len() == 0 {
        Seq::empty()
    } else {
        spec_hex(bytes.drop_last()).push(hex_digit((bytes.last() / 16) as int)).push(
            hex_digit((bytes.last() % 16) as int),
        )
    }
}

fn hex_str(n: u8) -> (r: &'static str)
    requires
        n < 16,
    ensures
        r@ == seq![hex_digit(n as int)],
{
    let digits = "0123456789abcdef";
    proof {
        reveal_strlit("0123456789abcdef");
        assert(digits@[n as int] == hex_digit(n as int));
    }
    let r = digits.substring_char(n as usize, n as usize + 1);
    assert(r@ =~= seq![hex_digit(n as int)]);
    r
}

/// Lowercase hexadecimal text of `bytes`.
pub fn hex_lower(bytes: &[u8]) -> (r: String)
    ensures
        r@ == spec_hex(bytes@),
{
    let mut out = String::new();
    let mut i: usize = 0;
    while i < bytes.len()
        invariant
            i <= bytes@.len(),
            out@ == spec_hex(bytes@.take(i as int)),
        decreases bytes@.len() - i,
    {
        let b = bytes[i];
        let hi = hex_str(b / 16);
        let lo = hex_str(b % 16);
        let ghost before = out@;
        out.append(hi);
        out.append(lo);
        proof {
            assert(bytes@.take(i as int + 1).drop_last() =~= bytes@.take(i as int));
            assert(out@ =~= before.push(hex_digit((b / 16) as int)).push(hex_digit((b % 16) as int)));
        }
        i = i + 1;
    }
    assert(bytes@.take(bytes@.len() as int) =~= bytes@);
    out
}

/// The canonical fingerprint of an SPKI public key: lowercase hex SHA-256 of its DER.
pub fn fingerprint_of_spki_der(der: &[u8]) -> (r: String)
    ensures
        r@ == spec_hex(spec_sha256(der@)),
{
    let digest = sha256(der);
    hex_lower(digest.as_slice())
}

/// The canonical fingerprint of a public key: lowercase hex SHA-256 of its SPKI DER.
/// The key already holds that DER, so this never fails.
pub fn fingerprint(key: &RsaPublicKey) -> (r: Result<String, CryptErr>)
    ensures
        r matches Ok(s) && s@ == spec_hex(spec_sha256(key.spki_der@)),
{
    Ok(fingerprint_of_spki_der(key.spki_der.as_slice()))
}

// =========================== SIGN AND VERIFY ================================== //

/// The RSASSA-PKCS1-v1_5 signature under `alg` of `data` by the private key whose
/// PKCS#8 DER is `pkcs8_der`; `None` when the key does not parse or signing fails.
/// aws-lc-rs ignores the random source, so the signature is a function of these.
pub uninterp spec fn spec_rsa_sign(alg: RsaAlg, pkcs8_der: Seq<u8>, data: Seq<u8>) -> Option<Seq<u8>>;

/// `KeyPair::sign` with the scheme's PKCS#1 v1.5 padding, the key given as PKCS#8 DER
/// (converted through `KeyPair::from_pkcs8`) and the signature written into a buffer
/// of exactly `public_modulus_len()` bytes (a buffer of another size would panic).
/// Claimed: the outcome is `spec_rsa_sign` of the scheme, key and data; aws-lc-rs
/// accepts RSA keys of 2048 to 8192 bits only (`validate_rsa_key`), so a signature is
/// 256 to 1024 bytes long.
#[verifier::external_body]
fn rsa_sign(pkcs8_der: &[u8], alg: RsaAlg, data: &[u8]) -> (r: Result<Vec<u8>, ::aws_lc_rs::error::Unspecified>)
    ensures
        r is Ok <==> spec_rsa_sign(alg, pkcs8_der@, data@) is Some,
        r matches Ok(sig) ==> sig@ == spec_rsa_sign(alg, pkcs8_der@, data@)->0 && 256 <= sig@.len() <= 1024,
{
    let padding: &'static dyn ::aws_lc_rs::signature::RsaEncoding = match alg {
        RsaAlg::Rs256 => &::aws_lc_rs::signature::RSA_PKCS1_SHA256,
        RsaAlg::Rs512 => &::aws_lc_rs::signature::RSA_PKCS1_SHA512,
    };
    let key_pair = ::aws_lc_rs::rsa::KeyPair::from_pkcs8(pkcs8_der)?;
    let mut sig = vec![0u8; key_pair.public_modulus_len()];
    key_pair.sign(padding, &::aws_lc_rs::rand::SystemRandom::new(), data, &mut sig)?;
    Ok(sig)
}

/// An RSASSA-PKCS1-v1_5 signature of `data` under `alg` by `key_pair`.
pub fn sign(key_pair: &RsaKeyPair, data: &[u8], alg: RsaAlg) -> (r: Result<Vec<u8>, CryptErr>)
    ensures
        match spec_rsa_sign(alg, key_pair.pkcs8_der@, data@) {
            Some(sig) => r matches Ok(s) && s@ == sig && 256 <= s@.len() <= 1024,
            None => r matches Err(CryptErr::SignDataErr(_)),
        },
{
    match rsa_sign(key_pair.pkcs8_der.as_slice(), alg, data) {
        Ok(sig) => Ok(sig),
        Err(e) => Err(CryptErr::SignDataErr(SignDataErr { source: e })),
    }
}

/// Whether `sig` is a valid `alg` signature of `data` under the public key `der`.
pub uninterp spec fn spec_rsa_verifies(alg: RsaAlg, der: Seq<u8>, data: Seq<u8>, sig: Seq<u8>) -> bool;

/// `UnparsedPublicKey::new(RSA_PKCS1_2048_8192_SHA256 or _SHA512, der).verify(data, sig)`
/// as a boolean. Claimed: the answer is a function of the scheme, key, data and
/// signature.
#[verifier::external_body]
fn rsa_verify(alg: RsaAlg, der: &[u8], data: &[u8], sig: &[u8]) -> (r: bool)
    ensures
        r == spec_rsa_verifies(alg, der@, data@, sig@),
{
    let params: &'static dyn ::aws_lc_rs::signature::VerificationAlgorithm = match alg {
        RsaAlg::Rs256 => &::aws_lc_rs::signature::RSA_PKCS1_2048_8192_SHA256,
        RsaAlg::Rs512 => &::aws_lc_rs::signature::RSA_PKCS1_2048_8192_SHA512,
    };
    ::aws_lc_rs::signature::UnparsedPublicKey::new(params, der).verify(data, sig).is_ok()
}

/// Verify a signature against a public-key PEM. A bad signature is `Ok(false)`; only a
/// key that cannot be read is an error.
pub fn verify(pem: &[u8], data: &[u8], signature: &[u8], alg: RsaAlg) -> (r: Result<bool, CryptErr>)
    ensures
        match spec_pem_decode(spec_trim_end(pem@)) {
            Some((label, der)) => if label != SPKI_LABEL@ {
                r matches Err(CryptErr::UnsupportedPEMLabelErr(e)) && e.label@ == label
            } else if !spec_public_key_parses(der) {
                r matches Err(CryptErr::ParsePublicKeyErr(_))
            } else {
                r == Ok::<bool, CryptErr>(spec_rsa_verifies(alg, der, data@, signature@))
            },
            None => r matches Err(CryptErr::DecodePEMErr(_)),
        },
{
    let der = decode_spki_pem(pem)?;
    if let Err(e) = public_key_spki(der.as_slice()) {
        return Err(CryptErr::ParsePublicKeyErr(ParsePublicKeyErr { source: e }));
    }
    Ok(rsa_verify(alg, der.as_slice(), data, signature))
}

// ============================== GENERATE ====================================== //

/// The modulus length in bytes of a key of `size`.
pub open spec fn key_size_bytes(size: RsaKeySize) -> nat {
    match size {
        RsaKeySize::Rsa2048 => 256,
        RsaKeySize::Rsa3072 => 384,
        RsaKeySize::Rsa4096 => 512,
        RsaKeySize::Rsa8192 => 1024,
    }
}

/// A generated key pair of `size`: its PKCS#8 DER reads back (`KeyPair::from_pkcs8`)
/// as the same key, whose two encodings are the pair itself, and every signature it
/// makes is as long as a modulus of `size`.
pub open spec fn is_generated_pair(size: RsaKeySize, pkcs8_der: Seq<u8>, spki_der: Seq<u8>) -> bool {
    &&& spec_pkcs8_parses(pkcs8_der)
    &&& spec_private_key_ders(PrivateKeyFormat::Pkcs8, pkcs8_der) == Some((pkcs8_der, spki_der))
    &&& forall|alg: RsaAlg, data: Seq<u8>|
        #[trigger] spec_rsa_sign(alg, pkcs8_der, data) matches Some(sig) ==> sig.len()
            == key_size_bytes(size)
}

/// `KeyPair::generate` of the size, with the fresh key converted to plain DER through
/// `AsDer::<Pkcs8V1Der>::as_der` and `public_key().as_der()` (SPKI). The key is random;
/// claimed of it is what the source shows: `generate` makes an RSA key whose modulus
/// has exactly the requested number of bits (`generate_rsa_key(size.bits())`, then the
/// 2048-8192-bit check of `KeyPair::new`), and its DER, being that key's own
/// serialization, parses back to it and serializes again to the same bytes.
#[verifier::external_body]
fn generate_key_pair(size: RsaKeySize) -> (r: Result<(Vec<u8>, Vec<u8>), ::aws_lc_rs::error::Unspecified>)
    ensures
        r matches Ok((p, s)) ==> spec_pkcs8_parses(p@) && spec_private_key_ders(
            PrivateKeyFormat::Pkcs8,
            p@,
        ) == Some((p@, s@)) && (forall|alg: RsaAlg, data: Seq<u8>|
            #[trigger] spec_rsa_sign(alg, p@, data) matches Some(sig) ==> sig.len()
                == key_size_bytes(size)),
{
    let size = match size {
        RsaKeySize::Rsa2048 => ::aws_lc_rs::rsa::KeySize::Rsa2048,
        RsaKeySize::Rsa3072 => ::aws_lc_rs::rsa::KeySize::Rsa3072,
        RsaKeySize::Rsa4096 => ::aws_lc_rs::rsa::KeySize::Rsa4096,
        RsaKeySize::Rsa8192 => ::aws_lc_rs::rsa::KeySize::Rsa8192,
    };
    let key = ::aws_lc_rs::rsa::KeyPair::generate(size)?;
    let pkcs8: ::aws_lc_rs::encoding::Pkcs8V1Der<'static> = key.as_der()?;
    let spki: ::aws_lc_rs::encoding::PublicKeyX509Der<'static> = key.public_key().as_der()?;
    Ok((pkcs8.as_ref().to_vec(), spki.as_ref().to_vec()))
}

/// The PEM text of `der` under `label`, or the encoder's refusal.
pub open spec fn spec_pem_of(label: Seq<char>, der: Seq<u8>, r: Result<String, CryptErr>, private: bool) -> bool {
    match spec_pem_encode(label, der) {
        Some(text) => r matches Ok(s) && s@ == text,
        None => if private {
            r matches Err(CryptErr::ConvertPrivateKeyToPEMErr(_))
        } else {
            r matches Err(CryptErr::ConvertPublicKeyToPEMErr(_))
        },
    }
}

/// The private key as PKCS#8 PEM.
pub fn private_key_to_pem(key_pair: &RsaKeyPair) -> (r: Result<String, CryptErr>)
    ensures
        spec_pem_of(PKCS8_LABEL@, key_pair.pkcs8_der@, r, true),
{
    match pem_encode_string(PKCS8_LABEL, key_pair.pkcs8_der.as_slice()) {
        Ok(s) => Ok(s),
        Err(e) => Err(CryptErr::ConvertPrivateKeyToPEMErr(ConvertPrivateKeyToPEMErr { source: e })),
    }
}

/// The public key of a key pair as SPKI PEM.
pub fn public_key_to_pem(key_pair: &RsaKeyPair) -> (r: Result<String, CryptErr>)
    ensures
        spec_pem_of(SPKI_LABEL@, key_pair.spki_der@, r, false),
{
    match pem_encode_string(SPKI_LABEL, key_pair.spki_der.as_slice()) {
        Ok(s) => Ok(s),
        Err(e) => Err(CryptErr::ConvertPublicKeyToPEMErr(ConvertPublicKeyToPEMErr { source: e })),
    }
}

/// The PEM texts of the key pair `k`: its private key as PKCS#8 PEM and its public key
/// as SPKI PEM, or the first of them that the encoder refuses.
pub open spec fn spec_key_pair_pems(k: RsaKeyPair, r: Result<(String, String), CryptErr>) -> bool {
    match spec_pem_encode(PKCS8_LABEL@, k.pkcs8_der@) {
        None => r matches Err(CryptErr::ConvertPrivateKeyToPEMErr(_)),
        Some(private_text) => match spec_pem_encode(SPKI_LABEL@, k.spki_der@) {
            None => r matches Err(CryptErr::ConvertPublicKeyToPEMErr(_)),
            Some(public_text) => r matches Ok((p, q)) && p@ == private_text && q@ == public_text,
        },
    }
}

/// The PEM texts of a key pair, private (PKCS#8) then public (SPKI).
pub fn key_pair_pems(key_pair: &RsaKeyPair) -> (r: Result<(String, String), CryptErr>)
    ensures
        spec_key_pair_pems(*key_pair, r),
{
    let private_pem = private_key_to_pem(key_pair)?;
    let public_pem = public_key_to_pem(key_pair)?;
    Ok((private_pem, public_pem))
}

/// A fresh key pair of `size`, as (private PKCS#8 PEM, public SPKI PEM), for the
/// caller to write to disk: a failed generation is `GenerateRSAKeyPairErr`, and the
/// generated pair's texts are those of `key_pair_pems`.
pub fn gen_key_pair_pems(size: RsaKeySize) -> (r: Result<(String, String), CryptErr>)
    ensures
        r matches Err(CryptErr::GenerateRSAKeyPairErr(_)) || exists|k: RsaKeyPair|
            is_generated_pair(size, k.pkcs8_der@, k.spki_der@) && spec_key_pair_pems(k, r),
{
    let key_pair = match generate_key_pair(size) {
        Ok((pkcs8_der, spki_der)) => RsaKeyPair { pkcs8_der, spki_der },
        Err(e) => {
            return Err(CryptErr::GenerateRSAKeyPairErr(GenerateRSAKeyPairErr { source: e }));
        },
    };
    let r = key_pair_pems(&key_pair);
    assert(is_generated_pair(size, key_pair.pkcs8_der@, key_pair.spki_der@));
    assert(spec_key_pair_pems(key_pair, r));
    r
}

} // verus!
