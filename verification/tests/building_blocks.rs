use miru_agent::authn::errors::MockError;
use miru_agent::cli::tokens::{first_eq_sign, is_flag, key_value_of, leading_dashes, range_equals};
use miru_agent::cooldown::{saturating_mul_i64, saturating_pow_i64};
use miru_agent::crypt::base64::{
    decode_bytes, decode_bytes_standard, decode_bytes_url_safe, decode_string,
    decode_string_standard, decode_string_url_safe, decode_string_url_safe_no_pad, encode_bytes,
    encode_bytes_standard, encode_string, encode_string_url_safe, encode_string_url_safe_no_pad,
    Base64Engine,
};
use miru_agent::text::decimal_string;
use miru_agent::crypt::jwt::assemble_jwt;
use miru_agent::crypt::rsa::{decode_pem, unsupported_pem_label};
use miru_agent::crypt::CryptErr;
use miru_agent::deploy::apply::remaining_cooldown_at;
use miru_agent::deploy::filesys::is_access_denied;
use miru_agent::deploy::fsm::should_bump_attempts;
use miru_agent::filesys::IoErrorKind;
use miru_agent::models::{Deployment, DplActivity, DplErrStatus, DplTarget, Updates};
use miru_agent::text::str_equals;
use miru_agent::time::{
    checked_add_secs, checked_add_whole_secs, clamp_add_secs, clock_nanos, clock_secs, now_nanos,
    now_secs, MAX_UTC_NANOS, MAX_UTC_SECS, MIN_UTC_NANOS, MIN_UTC_SECS,
};

#[test]
fn base64_variants_round_trip() {
    assert_eq!(encode_string_url_safe("??>"), "Pz8-");
    assert_eq!(decode_string_url_safe("Pz8-").unwrap(), "??>");
    assert_eq!(decode_string_standard("aGk=").unwrap(), "hi");
    assert_eq!(decode_bytes_url_safe("-_8=").unwrap(), vec![0xfb, 0xff]);
    for engine in [
        Base64Engine::Standard,
        Base64Engine::UrlSafe,
        Base64Engine::UrlSafeNoPad,
    ] {
        let bytes = [0u8, 1, 2, 250, 251, 252, 253, 254, 255];
        let encoded = encode_bytes(&bytes, engine);
        assert!(!encoded.contains('.'));
        assert_eq!(decode_bytes(&encoded, engine).unwrap(), bytes);
        let text = encode_string("miru", engine);
        assert_eq!(decode_string(&text, engine).unwrap(), "miru");
    }
}

#[test]
fn base64_of_invalid_utf8_is_not_a_string() {
    let token = encode_bytes(&[0xff, 0xfe], Base64Engine::Standard);
    assert!(matches!(
        decode_string(&token, Base64Engine::Standard),
        Err(CryptErr::ConvertBytesToStringErr(_))
    ));
    assert!(matches!(
        decode_string("not base64!", Base64Engine::Standard),
        Err(CryptErr::Base64DecodeErr(_))
    ));
}

#[test]
fn a_jwt_is_the_signing_input_and_the_encoded_signature() {
    assert_eq!(assemble_jwt("aGVhZA.Ym9keQ", &[0xfb, 0xff]), "aGVhZA.Ym9keQ.-_8");
}

#[test]
fn pem_blocks_decode_to_label_and_der() {
    let pem = b"-----BEGIN PUBLIC KEY-----\nAAEC\n-----END PUBLIC KEY-----\n\n";
    let (label, der) = decode_pem(pem).unwrap();
    assert_eq!(label, "PUBLIC KEY");
    assert_eq!(der, vec![0, 1, 2]);
    assert!(matches!(decode_pem(b"garbage"), Err(CryptErr::DecodePEMErr(_))));
    match unsupported_pem_label("X509 CRL") {
        CryptErr::UnsupportedPEMLabelErr(e) => assert_eq!(e.label, "X509 CRL"),
        other => panic!("unexpected {other:?}"),
    }
}

#[test]
fn cli_tokens() {
    assert_eq!(leading_dashes("--flag"), 2);
    assert_eq!(leading_dashes("flag"), 0);
    assert!(is_flag("--version", "version"));
    assert!(is_flag("-version", "version"));
    assert!(!is_flag("--versions", "version"));
    assert_eq!(first_eq_sign("a=b=c"), Some(1));
    assert_eq!(first_eq_sign("abc"), None);
    assert!(range_equals("--name", 2, 6, "name"));
    assert!(!range_equals("--name", 1, 6, "name"));
    assert_eq!(
        key_value_of("--token=abc=d", "token"),
        Some(Some("abc=d".to_string()))
    );
    assert_eq!(key_value_of("--token=", "token"), Some(None));
    assert_eq!(key_value_of("--other=x", "token"), None);
    assert_eq!(key_value_of("--token", "token"), None);
}

#[test]
fn saturating_arithmetic() {
    assert_eq!(saturating_mul_i64(6, 7), 42);
    assert_eq!(saturating_mul_i64(i64::MAX, 2), i64::MAX);
    assert_eq!(saturating_mul_i64(i64::MIN, 2), i64::MIN);
    assert_eq!(saturating_mul_i64(-3, i64::MAX), i64::MIN);
    assert_eq!(saturating_pow_i64(3, 4), 81);
    assert_eq!(saturating_pow_i64(-2, 3), -8);
    assert_eq!(saturating_pow_i64(0, 0), 1);
    assert_eq!(saturating_pow_i64(2, 64), i64::MAX);
    assert_eq!(saturating_pow_i64(-2, 65), i64::MIN);
}

#[test]
fn instants_are_added_within_range() {
    const S: i128 = 1_000_000_000;
    assert_eq!(checked_add_secs(100, 20), Some(100 + 20 * S));
    assert_eq!(checked_add_secs(MAX_UTC_NANOS, 1), None);
    assert_eq!(checked_add_secs(MAX_UTC_NANOS - S, 1), Some(MAX_UTC_NANOS));
    assert_eq!(checked_add_secs(MIN_UTC_NANOS, -1), None);
    assert_eq!(checked_add_whole_secs(100, 20), Some(120));
    assert_eq!(checked_add_whole_secs(MAX_UTC_SECS, 1), None);
    assert_eq!(clamp_add_secs(100 * S + 5, -20), 80 * S + 5);
    assert_eq!(clamp_add_secs(MAX_UTC_NANOS - 1, 10), MAX_UTC_NANOS);
    assert_eq!(clamp_add_secs(MIN_UTC_NANOS + 1, -10), MIN_UTC_NANOS);
    let now = now_secs();
    assert!(now > 1_600_000_000 && now <= MAX_UTC_SECS);
    let nanos = now_nanos();
    assert!(nanos / S >= i128::from(now) && nanos <= MAX_UTC_NANOS);
    assert_eq!(clock_nanos(Ok((3, 7))), 3 * S + 7);
    assert_eq!(clock_nanos(Ok((u64::MAX, 0))), MAX_UTC_NANOS);
    assert_eq!(clock_secs(Ok((3, 7))), 3);
    // a clock set before the epoch reads as the instant it shows
    assert_eq!(clock_nanos(Err((1, 500_000_000))), -(S + S / 2));
    assert_eq!(clock_nanos(Err((u64::MAX, 0))), MIN_UTC_NANOS);
    let before = chrono::DateTime::from_timestamp_nanos(-1_500_000_000);
    assert_eq!(clock_secs(Err((1, 500_000_000))), before.timestamp());
    assert_eq!(clock_secs(Err((1, 500_000_000))), -2);
    assert_eq!(clock_secs(Err((2, 0))), -2);
    assert_eq!(clock_secs(Err((u64::MAX, 0))), MIN_UTC_SECS);
}

fn deployment() -> Deployment {
    Deployment {
        id: "dpl".to_string(),
        target_status: DplTarget::Deployed,
        activity_status: DplActivity::Queued,
        error_status: DplErrStatus::NoError,
        attempts: 0,
        cooldown_ends_at: 0,
        config_instance_ids: vec![],
    }
}

#[test]
fn patches_replace_only_what_they_name() {
    let mut d = deployment();
    d.patch_at(
        Updates {
            activity_status: None,
            error_status: Some(DplErrStatus::Retrying),
            attempts: Some(3),
            cooldown: Some(60),
        },
        1_000_000_000_500,
    );
    assert_eq!(d.activity_status, DplActivity::Queued);
    assert_eq!(d.error_status, DplErrStatus::Retrying);
    assert_eq!(d.attempts, 3);
    // the cooldown ends 60 s after the instant, to the nanosecond
    assert_eq!(d.cooldown_ends_at, 1_060_000_000_500);
    assert!(d.is_in_cooldown_at(1_060_000_000_499));
    assert!(!d.is_in_cooldown_at(1_060_000_000_500));
    assert_eq!(remaining_cooldown_at(&d, 1_000_000_000_500), Some(60_000_000_000));
    assert_eq!(remaining_cooldown_at(&d, 1_059_999_999_999), Some(501));
    assert_eq!(remaining_cooldown_at(&d, 1_060_000_000_500), None);
}

#[test]
fn error_classification_helpers() {
    assert!(is_access_denied(IoErrorKind::PermissionDenied));
    assert!(is_access_denied(IoErrorKind::ReadOnlyFilesystem));
    assert!(!is_access_denied(IoErrorKind::NotFound));
    assert!(should_bump_attempts(&MockError {
        is_network_conn_err: false
    }));
    assert!(!should_bump_attempts(&MockError {
        is_network_conn_err: true
    }));
    assert!(str_equals("déjà", "déjà"));
    assert!(!str_equals("abc", "abd"));
}

#[test]
fn fixed_engines_round_trip() {
    let bytes: Vec<u8> = (0u8..=255).collect();
    assert_eq!(decode_bytes_standard(&encode_bytes_standard(&bytes)).unwrap(), bytes);
    let text = "déjà vu ~~~ ???";
    let encoded = encode_string_url_safe_no_pad(text);
    assert!(!encoded.contains('=') && !encoded.contains('+') && !encoded.contains('/'));
    assert_eq!(decode_string_url_safe_no_pad(&encoded).unwrap(), text);
}

#[test]
fn standard_string_decoding_names_its_error() {
    assert!(matches!(
        decode_string_standard("/w=="),
        Err(CryptErr::ConvertBytesToStringErr(_))
    ));
    assert!(matches!(
        decode_string_standard("!!!!"),
        Err(CryptErr::Base64DecodeErr(_))
    ));
    assert_eq!(decode_string_standard("aGVsbG8=").unwrap(), "hello");
}

#[test]
fn decimal_text() {
    assert_eq!(decimal_string(0), "0");
    assert_eq!(decimal_string(9), "9");
    assert_eq!(decimal_string(10), "10");
    assert_eq!(decimal_string(4096), "4096");
    assert_eq!(decimal_string(usize::MAX), usize::MAX.to_string());
}
