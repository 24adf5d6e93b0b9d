use ::base64::Engine as _;
use vstd::prelude::*;
use vstd::utf8::{decode_utf8, encode_utf8, encode_utf8_decode_utf8, encode_utf8_valid_utf8, valid_utf8};

use crate::crypt::errors::{Base64DecodeErr, ConvertBytesToStringErr, CryptErr};

verus! {

/// The base64 variants the agent uses (the engines of `base64::engine::general_purpose`).
#[derive(Debug, Clone, Copy, PartialEq, Eq, Structural)]
pub enum Base64Engine {
    /// Standard alphabet, padded.
    Standard,
    /// URL-safe alphabet, padded.
    UrlSafe,
    /// URL-safe alphabet, unpadded.
    UrlSafeNoPad,
}

/// Whether the engine writes `=` padding.
pub open spec fn pads(engine: Base64Engine) -> bool {
    engine != Base64Engine::UrlSafeNoPad
}

/// The length of the base64 encoding of `n` bytes: four characters per complete group
/// of three bytes, then four more when padding, or two or three for a final partial
/// group otherwise.
pub open spec fn spec_encoded_len(n: nat, padding: bool) -> nat {
    (n / 3) * 4 + if n % 3 == 0 {
        0nat
    } else if padding {
        4nat
    } else if n % 3 == 1 {
        2nat
    } else {
        3nat
    }
}

/// The character for the 6-bit value `v` in the alphabet of `engine`: `A`-`Z`, `a`-`z`,
/// `0`-`9`, then `+` `/` (standard) or `-` `_` (URL-safe).
pub open spec fn b64_char(engine: Base64Engine, v: int) -> char {
    if v < 26 {
        (('A' as int) + v) as char
    } else if v < 52 {
        (('a' as int) + v - 26) as char
    } else if v < 62 {
        (('0' as int) + v - 52) as char
    } else if v == 62 {
        if engine == Base64Engine::Standard { '+' } else { '-' }
    } else {
        if engine == Base64Engine::Standard { '/' } else { '_' }
    }
}

/// The base64 text of `bytes` under `engine` (RFC 4648): each group of three bytes
/// becomes four characters of six bits each, most significant first; a final group of
/// one or two bytes becomes two or three characters, followed by `=` up to four when
/// the engine pads.
pub open spec fn spec_b64_encode(engine: Base64Engine, bytes: Seq<u8>) -> Seq<char>
    decreases bytes.len(),
{
    if bytes.len() == 0 {
        Seq::empty()
    } else if bytes.len() == 1 {
        let b0 = bytes[0] as int;
        seq![b64_char(engine, b0 / 4), b64_char(engine, (b0 % 4) * 16)] + if pads(engine) {
            seq!['=', '=']
        } else {
            Seq::empty()
        }
    } else if bytes.len() == 2 {
        let b0 = bytes[0] as int;
        let b1 = bytes[1] as int;
        seq![
            b64_char(engine, b0 / 4),
            b64_char(engine, (b0 % 4) * 16 + b1 / 16),
            b64_char(engine, (b1 % 16) * 4),
        ] + if pads(engine) {
            seq!['=']
        } else {
            Seq::empty()
        }
    } else {
        let b0 = bytes[0] as int;
        let b1 = bytes[1] as int;
        let b2 = bytes[2] as int;
        seq![
            b64_char(engine, b0 / 4),
            b64_char(engine, (b0 % 4) * 16 + b1 / 16),
            b64_char(engine, (b1 % 16) * 4 + b2 / 64),
            b64_char(engine, b2 % 64),
        ] + spec_b64_encode(engine, bytes.skip(3))
    }
}

/// The bytes that the base64 text `token` decodes to under `engine`, or `None` when it
/// is not valid base64 for that engine.
pub uninterp spec fn spec_b64_decode(engine: Base64Engine, token: Seq<char>) -> Option<Seq<u8>>;

/// Whether `c` belongs to the alphabet of `engine`: ASCII letters and digits, `+` and
/// `/` (standard) or `-` and `_` (URL-safe), and `=` for the padded engines.
pub open spec fn in_alphabet(engine: Base64Engine, c: char) -> bool {
    ||| ('A' <= c && c <= 'Z')
    ||| ('a' <= c && c <= 'z')
    ||| ('0' <= c && c <= '9')
    ||| (engine == Base64Engine::Standard && (c == '+' || c == '/'))
    ||| (engine != Base64Engine::Standard && (c == '-' || c == '_'))
    ||| (pads(engine) && c == '=')
}

/// `text` is the base64 text of `bytes` under `engine`: it decodes back to them and is
/// drawn from the engine's alphabet (so it holds no `.`).
pub open spec fn is_encoding_of(engine: Base64Engine, bytes: Seq<u8>, text: Seq<char>) -> bool {
    &&& text == spec_b64_encode(engine, bytes)
    &&& spec_b64_decode(engine, text) == Some(bytes)
    &&& forall|i: int| 0 <= i < text.len() ==> in_alphabet(engine, #[trigger] text[i])
    &&& forall|i: int| 0 <= i < text.len() ==> text[i] != '.'
}

/// The character of a 6-bit value is in the engine's alphabet and is neither `=` nor
/// `.`.
proof fn lemma_b64_char(engine: Base64Engine, v: int)
    requires
        0 <= v < 64,
    ensures
        in_alphabet(engine, b64_char(engine, v)),
        b64_char(engine, v) != '=',
        b64_char(engine, v) != '.',
{
}

/// Every base64 text is drawn from its engine's alphabet and has the documented length.
pub proof fn lemma_b64_encode_shape(engine: Base64Engine, bytes: Seq<u8>)
    ensures
        spec_b64_encode(engine, bytes).len() == spec_encoded_len(bytes.len(), pads(engine)),
        forall|i: int|
            0 <= i < spec_b64_encode(engine, bytes).len() ==> in_alphabet(
                engine,
                #[trigger] spec_b64_encode(engine, bytes)[i],
            ),
    decreases bytes.len(),
{
    let t = spec_b64_encode(engine, bytes);
    if bytes.len() == 0 {
    } else if bytes.len() == 1 {
        let b0 = bytes[0] as int;
        lemma_b64_char(engine, b0 / 4);
        lemma_b64_char(engine, (b0 % 4) * 16);
    } else if bytes.len() == 2 {
        let b0 = bytes[0] as int;
        let b1 = bytes[1] as int;
        lemma_b64_char(engine, b0 / 4);
        lemma_b64_char(engine, (b0 % 4) * 16 + b1 / 16);
        lemma_b64_char(engine, (b1 % 16) * 4);
    } else {
        let b0 = bytes[0] as int;
        let b1 = bytes[1] as int;
        let b2 = bytes[2] as int;
        lemma_b64_char(engine, b0 / 4);
        lemma_b64_char(engine, (b0 % 4) * 16 + b1 / 16);
        lemma_b64_char(engine, (b1 % 16) * 4 + b2 / 64);
        lemma_b64_char(engine, b2 % 64);
        let rest = bytes.skip(3);
        lemma_b64_encode_shape(engine, rest);
        assert(rest.len() == bytes.len() - 3);
        assert forall|i: int| 0 <= i < t.len() implies in_alphabet(engine, #[trigger] t[i]) by {
            if i >= 4 {
                assert(t[i] == spec_b64_encode(engine, rest)[i - 4]);
            }
        }
    }
}

/// No base64 text holds a character outside its engine's alphabet: text that does is
/// the encoding of nothing.
pub proof fn lemma_b64_outside_alphabet_decodes_nothing(engine: Base64Engine, token: Seq<char>, i: int)
    requires
        0 <= i < token.len(),
        !in_alphabet(engine, token[i]),
    ensures
        forall|b: Seq<u8>| #[trigger] spec_b64_encode(engine, b) != token,
{
    assert forall|b: Seq<u8>| #[trigger] spec_b64_encode(engine, b) != token by {
        lemma_b64_encode_shape(engine, b);
        if spec_b64_encode(engine, b) == token {
            assert(in_alphabet(engine, spec_b64_encode(engine, b)[i]));
        }
    }
}

/// `Engine::encode` of the selected `base64::engine::general_purpose` engine. It writes
/// the encoding into a buffer of `encoded_len` bytes, and panics only when that length
/// overflows `usize`, which `requires` rules out. Claimed: the text is the RFC 4648
/// encoding `spec_b64_encode` with the engine's alphabet and padding, which determines
/// the bytes and decodes back to them with the same engine.
#[verifier::external_body]
fn engine_encode(engine: Base64Engine, bytes: &[u8]) -> (r: String)
    requires
        spec_encoded_len(bytes@.len(), pads(engine)) <= usize::MAX,
    ensures
        r@ == spec_b64_encode(engine, bytes@),
        forall|b: Seq<u8>| #[trigger] spec_b64_encode(engine, b) == r@ ==> b == bytes@,
        spec_b64_decode(engine, r@) == Some(bytes@),
{
    match engine {
        Base64Engine::Standard => ::base64::engine::general_purpose::STANDARD.encode(bytes),
        Base64Engine::UrlSafe => ::base64::engine::general_purpose::URL_SAFE.encode(bytes),
        Base64Engine::UrlSafeNoPad => ::base64::engine::general_purpose::URL_SAFE_NO_PAD.encode(
            bytes,
        ),
    }
}

/// `Engine::decode` of the selected `base64::engine::general_purpose` engine on the
/// UTF-8 bytes of `token`. These engines require canonical padding (or none) and zero
/// trailing bits (`GeneralPurposeConfig::new`, `NO_PAD`), so decoding is the inverse of
/// encoding: claimed, the text is accepted exactly when it is the encoding of some
/// bytes, and then it yields those bytes.
#[verifier::external_body]
fn engine_decode(engine: Base64Engine, token: &str) -> (r: Result<Vec<u8>, ::base64::DecodeError>)
    ensures
        r is Ok <==> spec_b64_decode(engine, token@) is Some,
        r matches Ok(v) ==> spec_b64_decode(engine, token@) == Some(v@),
        r is Ok <==> exists|b: Seq<u8>| #[trigger] spec_b64_encode(engine, b) == token@,
        r matches Ok(v) ==> spec_b64_encode(engine, v@) == token@,
        forall|b: Seq<u8>| #[trigger] spec_b64_encode(engine, b) == token@ ==> r is Ok && r->Ok_0@
            == b,
{
    match engine {
        Base64Engine::Standard => ::base64::engine::general_purpose::STANDARD.decode(token),
        Base64Engine::UrlSafe => ::base64::engine::general_purpose::URL_SAFE.decode(token),
        Base64Engine::UrlSafeNoPad => ::base64::engine::general_purpose::URL_SAFE_NO_PAD.decode(
            token,
        ),
    }
}

/// `String::from_utf8`: a string exactly when the bytes are valid UTF-8, holding the
/// characters they encode.
#[verifier::external_body]
fn string_from_utf8(bytes: Vec<u8>) -> (r: Result<String, Vec<u8>>)
    ensures
        r is Ok <==> valid_utf8(bytes@),
        r matches Ok(s) ==> s@ == decode_utf8(bytes@),
        r matches Err(b) ==> b@ == bytes@,
{
    String::from_utf8(bytes).map_err(|e| e.into_bytes())
}

/// Encode bytes as base64 text with `method`.
pub fn encode_bytes(bytes: &[u8], method: Base64Engine) -> (r: String)
    requires
        spec_encoded_len(bytes@.len(), pads(method)) <= usize::MAX,
    ensures
        is_encoding_of(method, bytes@, r@),
{
    let r = engine_encode(method, bytes);
    proof {
        lemma_b64_encode_shape(method, bytes@);
    }
    assert forall|i: int| 0 <= i < r@.len() implies r@[i] != '.' by {
        assert(in_alphabet(method, r@[i]));
    }
    r
}

pub fn encode_bytes_standard(bytes: &[u8]) -> (r: String)
    requires
        spec_encoded_len(bytes@.len(), true) <= usize::MAX,
    ensures
        is_encoding_of(Base64Engine::Standard, bytes@, r@),
{
    encode_bytes(bytes, Base64Engine::Standard)
}

pub fn encode_bytes_url_safe_no_pad(bytes: &[u8]) -> (r: String)
    requires
        spec_encoded_len(bytes@.len(), false) <= usize::MAX,
    ensures
        is_encoding_of(Base64Engine::UrlSafeNoPad, bytes@, r@),
{
    encode_bytes(bytes, Base64Engine::UrlSafeNoPad)
}

pub fn encode_bytes_url_safe(bytes: &[u8]) -> (r: String)
    requires
        spec_encoded_len(bytes@.len(), true) <= usize::MAX,
    ensures
        is_encoding_of(Base64Engine::UrlSafe, bytes@, r@),
{
    encode_bytes(bytes, Base64Engine::UrlSafe)
}

/// Encode the UTF-8 bytes of `string` as base64 text with `method`.
pub fn encode_string(string: &str, method: Base64Engine) -> (r: String)
    requires
        spec_encoded_len(encode_utf8(string@).len(), pads(method)) <= usize::MAX,
    ensures
        is_encoding_of(method, encode_utf8(string@), r@),
        spec_decoded_string(method, r@) == Some(string@),
{
    let r = encode_bytes(string.as_bytes(), method);
    proof {
        encode_utf8_valid_utf8(string@);
        encode_utf8_decode_utf8(string@);
    }
    r
}

pub fn encode_string_standard(string: &str) -> (r: String)
    requires
        spec_encoded_len(encode_utf8(string@).len(), true) <= usize::MAX,
    ensures
        is_encoding_of(Base64Engine::Standard, encode_utf8(string@), r@),
        spec_decoded_string(Base64Engine::Standard, r@) == Some(string@),
{
    encode_string(string, Base64Engine::Standard)
}

pub fn encode_string_url_safe_no_pad(string: &str) -> (r: String)
    requires
        spec_encoded_len(encode_utf8(string@).len(), false) <= usize::MAX,
    ensures
        is_encoding_of(Base64Engine::UrlSafeNoPad, encode_utf8(string@), r@),
        spec_decoded_string(Base64Engine::UrlSafeNoPad, r@) == Some(string@),
{
    encode_string(string, Base64Engine::UrlSafeNoPad)
}

pub fn encode_string_url_safe(string: &str) -> (r: String)
    requires
        spec_encoded_len(encode_utf8(string@).len(), true) <= usize::MAX,
    ensures
        is_encoding_of(Base64Engine::UrlSafe, encode_utf8(string@), r@),
        spec_decoded_string(Base64Engine::UrlSafe, r@) == Some(string@),
{
    encode_string(string, Base64Engine::UrlSafe)
}

/// `r` is what decoding base64 text `token` under `engine` gives: the bytes it decodes
/// to, or a `Base64DecodeErr` when it is not valid base64; the encoding of any bytes
/// decodes back to them.
pub open spec fn is_decoding_of(engine: Base64Engine, token: Seq<char>, r: Result<Vec<u8>, CryptErr>) -> bool {
    &&& (r is Ok <==> spec_b64_decode(engine, token) is Some)
    &&& (r is Ok <==> exists|b: Seq<u8>| #[trigger] spec_b64_encode(engine, b) == token)
    &&& (r matches Ok(v) ==> spec_b64_encode(engine, v@) == token)
    &&& (r matches Ok(v) ==> spec_b64_decode(engine, token) == Some(v@))
    &&& (r is Err ==> r matches Err(CryptErr::Base64DecodeErr(_)))
    &&& forall|b: Seq<u8>| #[trigger] spec_b64_encode(engine, b) == token ==> (r matches Ok(v)
        && v@ == b)
}

/// Decode base64 text with `method`; text that is not valid base64 for it is a
/// `Base64DecodeErr`. Decoding inverts encoding.
pub fn decode_bytes(token: &str, method: Base64Engine) -> (r: Result<Vec<u8>, CryptErr>)
    ensures
        is_decoding_of(method, token@, r),
{
    match engine_decode(method, token) {
        Ok(v) => Ok(v),
        Err(e) => Err(CryptErr::Base64DecodeErr(Base64DecodeErr { source: e })),
    }
}

pub fn decode_bytes_standard(token: &str) -> (r: Result<Vec<u8>, CryptErr>)
    ensures
        is_decoding_of(Base64Engine::Standard, token@, r),
{
    decode_bytes(token, Base64Engine::Standard)
}

pub fn decode_bytes_url_safe_no_pad(token: &str) -> (r: Result<Vec<u8>, CryptErr>)
    ensures
        is_decoding_of(Base64Engine::UrlSafeNoPad, token@, r),
{
    decode_bytes(token, Base64Engine::UrlSafeNoPad)
}

pub fn decode_bytes_url_safe(token: &str) -> (r: Result<Vec<u8>, CryptErr>)
    ensures
        is_decoding_of(Base64Engine::UrlSafe, token@, r),
{
    decode_bytes(token, Base64Engine::UrlSafe)
}

/// The text that base64 text `token` decodes to under `method`: the decoded bytes read
/// as UTF-8, or `None` when decoding fails or the bytes are not UTF-8.
pub open spec fn spec_decoded_string(method: Base64Engine, token: Seq<char>) -> Option<Seq<char>> {
    match spec_b64_decode(method, token) {
        Some(b) => if valid_utf8(b) {
            Some(decode_utf8(b))
        } else {
            None
        },
        None => None,
    }
}

/// `r` is what decoding base64 text `token` under `engine` as UTF-8 text gives: a
/// `Base64DecodeErr` for invalid base64, a `ConvertBytesToStringErr` for bytes that
/// are not UTF-8, else the text; the encoding of any text decodes back to it.
pub open spec fn is_text_decoding_of(engine: Base64Engine, token: Seq<char>, r: Result<String, CryptErr>) -> bool {
    &&& (r matches Err(CryptErr::Base64DecodeErr(_))) <==> !exists|b: Seq<u8>| #[trigger] spec_b64_encode(engine, b) == token
    &&& match spec_b64_decode(engine, token) {
        None => r matches Err(CryptErr::Base64DecodeErr(_)),
        Some(b) => if valid_utf8(b) {
            r matches Ok(s) && s@ == decode_utf8(b)
        } else {
            r matches Err(CryptErr::ConvertBytesToStringErr(_))
        },
    }
    &&& forall|s: Seq<char>| #[trigger] spec_b64_encode(engine, encode_utf8(s)) == token ==> (r matches Ok(
        st,
    ) && st@ == s)
}

/// Decode base64 text with `method` and read the bytes as UTF-8. Invalid base64 is a
/// `Base64DecodeErr`, bytes that are not UTF-8 a `ConvertBytesToStringErr`. Decoding
/// the encoding of a string gives the string back.
pub fn decode_string(token: &str, method: Base64Engine) -> (r: Result<String, CryptErr>)
    ensures
        is_text_decoding_of(method, token@, r),
{
    let bytes = match decode_bytes(token, method) {
        Ok(b) => b,
        Err(e) => {
            proof {
                assert forall|s: Seq<char>| #[trigger]
                    spec_b64_encode(method, encode_utf8(s)) == token@ implies false by {}
            }
            return Err(e);
        },
    };
    let ghost b = bytes@;
    match string_from_utf8(bytes) {
        Ok(s) => {
            proof {
                assert forall|t: Seq<char>| #[trigger]
                    spec_b64_encode(method, encode_utf8(t)) == token@ implies s@ == t by {
                    encode_utf8_decode_utf8(t);
                }
            }
            Ok(s)
        },
        Err(raw) => {
            proof {
                assert forall|t: Seq<char>| #[trigger]
                    spec_b64_encode(method, encode_utf8(t)) == token@ implies false by {
                    encode_utf8_valid_utf8(t);
                }
            }
            Err(CryptErr::ConvertBytesToStringErr(ConvertBytesToStringErr { bytes: raw }))
        },
    }
}

pub fn decode_string_standard(token: &str) -> (r: Result<String, CryptErr>)
    ensures
        is_text_decoding_of(Base64Engine::Standard, token@, r),
{
    decode_string(token, Base64Engine::Standard)
}

pub fn decode_string_url_safe_no_pad(token: &str) -> (r: Result<String, CryptErr>)
    ensures
        is_text_decoding_of(Base64Engine::UrlSafeNoPad, token@, r),
{
    decode_string(token, Base64Engine::UrlSafeNoPad)
}

pub fn decode_string_url_safe(token: &str) -> (r: Result<String, CryptErr>)
    ensures
        is_text_decoding_of(Base64Engine::UrlSafe, token@, r),
{
    decode_string(token, Base64Engine::UrlSafe)
}

} // verus!
