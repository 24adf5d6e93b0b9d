use miru_agent::crypt::base64::{
    decode_bytes_standard, decode_bytes_url_safe_no_pad, decode_string_url_safe_no_pad,
    encode_bytes_standard, encode_bytes_url_safe, encode_bytes_url_safe_no_pad,
    encode_string_standard, encode_string_url_safe_no_pad,
};
use miru_agent::crypt::jwt::{decode_payload, validate_claims_at, Claims};
use miru_agent::crypt::CryptErr;

#[test]
fn standard_encoding_pads() {
    assert_eq!(encode_string_standard("hi"), "aGk=");
    assert_eq!(encode_bytes_standard(&[0xfb, 0xff]), "+/8=");
    assert_eq!(encode_bytes_url_safe(&[0xfb, 0xff]), "-_8=");
    assert_eq!(encode_bytes_url_safe_no_pad(&[0xfb, 0xff]), "-_8");
}

#[test]
fn decoding_inverts_encoding() {
    let bytes: Vec<u8> = (0u8..=255).collect();
    let encoded = encode_bytes_url_safe_no_pad(&bytes);
    assert_eq!(decode_bytes_url_safe_no_pad(&encoded).unwrap(), bytes);
    let text = "{\"sub\":\"dev_1\"}";
    assert_eq!(
        decode_string_url_safe_no_pad(&encode_string_url_safe_no_pad(text)).unwrap(),
        text
    );
}

#[test]
fn malformed_base64_is_an_error() {
    assert!(matches!(
        decode_bytes_standard("not base64!"),
        Err(CryptErr::Base64DecodeErr(_))
    ));
    // valid base64 of bytes that are not UTF-8
    let encoded = encode_bytes_url_safe_no_pad(&[0xff, 0xfe]);
    assert!(matches!(
        decode_string_url_safe_no_pad(&encoded),
        Err(CryptErr::ConvertBytesToStringErr(_))
    ));
}

fn token(payload: &str) -> String {
    format!(
        "{}.{}.{}",
        encode_string_url_safe_no_pad("{\"alg\":\"RS256\"}"),
        encode_string_url_safe_no_pad(payload),
        "signature"
    )
}

#[test]
fn decode_payload_reads_the_middle_part() {
    let payload = "{\"sub\":\"dev_1\",\"iss\":\"miru\"}";
    assert_eq!(decode_payload(&token(payload)).unwrap(), payload);
}

#[test]
fn decode_payload_rejects_other_part_counts() {
    for bad in ["", "a.b", "a.b.c.d", "abc"] {
        match decode_payload(bad) {
            Err(CryptErr::InvalidJWTErr(e)) => assert_eq!(e.msg, "Invalid JWT format"),
            other => panic!("expected InvalidJWTErr for {bad:?}, got {other:?}"),
        }
    }
}

fn claims(iss: &str, aud: &str, iat: i64, exp: i64) -> Claims {
    Claims {
        sub: "dev_1".to_string(),
        iss: iss.to_string(),
        aud: aud.to_string(),
        exp,
        iat,
    }
}

fn rejection(r: Result<String, CryptErr>) -> String {
    match r {
        Err(CryptErr::InvalidJWTErr(e)) => e.msg,
        other => panic!("expected InvalidJWTErr, got {other:?}"),
    }
}

#[test]
fn valid_claims_give_the_device_id() {
    let now = 1_000;
    assert_eq!(
        validate_claims_at(claims("miru", "device", now + 15, now), now).unwrap(),
        "dev_1"
    );
}

#[test]
fn claims_are_checked_in_order() {
    let now = 1_000;
    assert_eq!(
        rejection(validate_claims_at(claims("other", "x", now + 99, 0), now)),
        "Invalid issuer"
    );
    assert_eq!(
        rejection(validate_claims_at(claims("miru", "user", now + 99, 0), now)),
        "Invalid audience"
    );
    assert_eq!(
        rejection(validate_claims_at(claims("miru", "device", now + 16, 0), now)),
        "Issued at time is in the future"
    );
    assert_eq!(
        rejection(validate_claims_at(claims("miru", "device", now, now - 1), now)),
        "Expiration time is in the past"
    );
}
