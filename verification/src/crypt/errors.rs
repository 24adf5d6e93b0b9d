use vstd::prelude::*;

use crate::filesys::FileSysErr;

verus! {

#[verifier::external_type_specification]
#[verifier::external_body]
pub struct ExBase64DecodeError(::base64::DecodeError);

#[verifier::external_type_specification]
#[verifier::external_body]
pub struct ExPemError(::pem_rfc7468::Error);

#[verifier::external_type_specification]
#[verifier::external_body]
pub struct ExUnspecified(::aws_lc_rs::error::Unspecified);

#[verifier::external_type_specification]
#[verifier::external_body]
pub struct ExKeyRejected(::aws_lc_rs::error::KeyRejected);

#[derive(Debug)]
pub struct InvalidJWTErr {
    pub msg: String,
}

#[derive(Debug)]
pub struct InvalidJWTPayloadFormatErr {
    pub msg: String,
}

#[derive(Debug)]
pub struct Base64DecodeErr {
    pub source: ::base64::DecodeError,
}

/// Decoded bytes were not UTF-8.
#[derive(Debug)]
pub struct ConvertBytesToStringErr {
    pub bytes: Vec<u8>,
}

#[derive(Debug)]
pub struct ConvertPrivateKeyToDERErr {
    pub source: ::aws_lc_rs::error::Unspecified,
}

#[derive(Debug)]
pub struct ConvertPrivateKeyToPEMErr {
    pub source: ::pem_rfc7468::Error,
}

#[derive(Debug)]
pub struct ConvertPublicKeyToPEMErr {
    pub source: ::pem_rfc7468::Error,
}

#[derive(Debug)]
pub struct ConvertPublicKeyToDERErr {
    pub source: ::aws_lc_rs::error::Unspecified,
}

#[derive(Debug)]
pub struct GenerateRSAKeyPairErr {
    pub source: ::aws_lc_rs::error::Unspecified,
}

#[derive(Debug)]
pub struct DecodePEMErr {
    pub source: ::pem_rfc7468::Error,
}

#[derive(Debug)]
pub struct UnsupportedPEMLabelErr {
    pub label: String,
}

#[derive(Debug)]
pub struct ParsePrivateKeyErr {
    pub source: ::aws_lc_rs::error::KeyRejected,
}

#[derive(Debug)]
pub struct ParsePublicKeyErr {
    pub source: ::aws_lc_rs::error::KeyRejected,
}

#[derive(Debug)]
pub struct SignDataErr {
    pub source: ::aws_lc_rs::error::Unspecified,
}

/// Errors of the cryptographic helpers.
#[derive(Debug)]
pub enum CryptErr {
    InvalidJWTErr(InvalidJWTErr),
    InvalidJWTPayloadErr(InvalidJWTPayloadFormatErr),
    FileSysErr(FileSysErr),
    Base64DecodeErr(Base64DecodeErr),
    ConvertBytesToStringErr(ConvertBytesToStringErr),
    ConvertPrivateKeyToDERErr(ConvertPrivateKeyToDERErr),
    ConvertPrivateKeyToPEMErr(ConvertPrivateKeyToPEMErr),
    ConvertPublicKeyToPEMErr(ConvertPublicKeyToPEMErr),
    ConvertPublicKeyToDERErr(ConvertPublicKeyToDERErr),
    GenerateRSAKeyPairErr(GenerateRSAKeyPairErr),
    DecodePEMErr(DecodePEMErr),
    UnsupportedPEMLabelErr(UnsupportedPEMLabelErr),
    ParsePrivateKeyErr(ParsePrivateKeyErr),
    ParsePublicKeyErr(ParsePublicKeyErr),
    SignDataErr(SignDataErr),
}

impl crate::errors::ErrorClass for CryptErr {
    open spec fn spec_is_network_conn_err(&self) -> bool {
        false
    }

    open spec fn spec_is_terminal(&self) -> bool {
        false
    }

    fn is_network_conn_err(&self) -> (r: bool) {
        false
    }

    fn is_terminal(&self) -> (r: bool) {
        false
    }
}

} // verus!
