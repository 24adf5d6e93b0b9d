use vstd::prelude::*;
use vstd::string::*;
use vstd::utf8::{decode_utf8, encode_utf8, valid_utf8};

use crate::crypt::base64::{
    encode_bytes_url_safe_no_pad, spec_b64_decode, spec_b64_encode, spec_decoded_string,
    spec_encoded_len, Base64Engine,
};
use crate::crypt::jwt::{assemble_jwt, dots, jwt_text, lemma_jwt_dots, payload_part};
use crate::crypt::rsa::{sign, spec_rsa_sign, RsaAlg, RsaKeyPair};
use crate::crypt::CryptErr;

verus! {

/// How long a self-signed token is valid, in seconds.
pub const JWT_LIFETIME_SECS: i64 = 120;

/// The signing input of a JWT: the base64url (unpadded) header and payload joined by
/// `.`.
pub open spec fn spec_signing_input(header_json: Seq<u8>, payload_json: Seq<u8>) -> Seq<char> {
    spec_b64_encode(Base64Engine::UrlSafeNoPad, header_json) + seq!['.'] + spec_b64_encode(
        Base64Engine::UrlSafeNoPad,
        payload_json,
    )
}

/// Build a self-signed RS512 JWT from the JSON of its header and payload: the two
/// parts are base64url-encoded without padding and joined by `.`, the UTF-8 bytes of
/// that signing input are signed with RS512 under `key_pair`, and the encoded
/// signature is appended after another `.`. The token's payload part decodes back to
/// the payload.
pub fn mint_jwt(header_json: &[u8], payload_json: &[u8], key_pair: &RsaKeyPair) -> (r: Result<String, CryptErr>)
    requires
        spec_encoded_len(header_json@.len(), false) <= usize::MAX,
        spec_encoded_len(payload_json@.len(), false) <= usize::MAX,
    ensures
        match spec_rsa_sign(
            RsaAlg::Rs512,
            key_pair.pkcs8_der@,
            encode_utf8(spec_signing_input(header_json@, payload_json@)),
        ) {
            Some(sig) => r matches Ok(t) && t@ == jwt_text(header_json@, payload_json@, sig),
            None => r matches Err(CryptErr::SignDataErr(_)),
        },
        r matches Ok(t) ==> dots(t@) == 2 && payload_part(t@) == spec_b64_encode(
            Base64Engine::UrlSafeNoPad,
            payload_json@,
        ),
        r matches Ok(t) ==> (valid_utf8(payload_json@) ==> spec_decoded_string(
            Base64Engine::UrlSafeNoPad,
            payload_part(t@),
        ) == Some(decode_utf8(payload_json@))),
{
    let header = encode_bytes_url_safe_no_pad(header_json);
    let payload = encode_bytes_url_safe_no_pad(payload_json);
    let mut signing_input = String::from_str(header.as_str());
    signing_input.append(".");
    signing_input.append(payload.as_str());
    proof {
        reveal_strlit(".");
        assert(signing_input@ =~= header@ + seq!['.'] + payload@);
        assert(signing_input@ == spec_signing_input(header_json@, payload_json@));
    }
    let data = signing_input.as_str().as_bytes_vec();
    let signature = sign(key_pair, data.as_slice(), RsaAlg::Rs512)?;
    let token = assemble_jwt(signing_input.as_str(), signature.as_slice());
    proof {
        let es = spec_b64_encode(Base64Engine::UrlSafeNoPad, signature@);
        lemma_jwt_dots(header@, payload@, es);
        assert(token@ =~= jwt_text(header_json@, payload_json@, signature@));
    }
    Ok(token)
}

/// The expiry of a self-signed token issued at `iat`.
pub fn jwt_expiry(iat: i64) -> (r: i64)
    requires
        crate::time::valid_instant_secs(iat as int),
        crate::time::valid_instant_secs(iat + JWT_LIFETIME_SECS),
    ensures
        r == iat + JWT_LIFETIME_SECS,
{
    crate::time::checked_add_whole_secs(iat, JWT_LIFETIME_SECS).unwrap()
}

} // verus!
