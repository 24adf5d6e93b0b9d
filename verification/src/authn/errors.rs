use vstd::prelude::*;

use crate::crypt::CryptErr;
use crate::errors::ErrorClass;
use crate::filesys::FileSysErr;

verus! {

/// A timestamp that could not be converted.
#[derive(Debug)]
pub struct TimestampConversionErr {
    pub msg: String,
}

/// A token that could not be serialized or parsed.
#[derive(Debug)]
pub struct SerdeErr {
    pub msg: String,
}

/// A command that could not be sent to the token manager.
#[derive(Debug)]
pub struct SendActorMessageErr {
    pub source: String,
}

/// A reply that the token manager did not deliver.
#[derive(Debug)]
pub struct ReceiveActorMessageErr {
    pub source: String,
}

/// A stand-in failure whose network classification is chosen by its maker.
#[derive(Debug)]
pub struct MockError {
    pub is_network_conn_err: bool,
}

/// Failures of authentication.
#[derive(Debug)]
pub enum AuthnErr {
    TimestampConversionErr(TimestampConversionErr),
    CryptErr(CryptErr),
    FileSysErr(FileSysErr),
    SerdeErr(SerdeErr),
    SendActorMessageErr(SendActorMessageErr),
    ReceiveActorMessageErr(ReceiveActorMessageErr),
    MockError(MockError),
}

impl ErrorClass for TimestampConversionErr {
    open spec fn spec_is_network_conn_err(&self) -> bool {
        false
    }

    open spec fn spec_is_terminal(&self) -> bool {
        false
    }

    fn is_network_conn_err(&self) -> (r: bool) {
        false
    }

    fn is_terminal(&self) -> (r: bool) {
        false
    }
}

impl ErrorClass for SerdeErr {
    open spec fn spec_is_network_conn_err(&self) -> bool {
        false
    }

    open spec fn spec_is_terminal(&self) -> bool {
        false
    }

    fn is_network_conn_err(&self) -> (r: bool) {
        false
    }

    fn is_terminal(&self) -> (r: bool) {
        false
    }
}

impl ErrorClass for SendActorMessageErr {
    open spec fn spec_is_network_conn_err(&self) -> bool {
        false
    }

    open spec fn spec_is_terminal(&self) -> bool {
        false
    }

    fn is_network_conn_err(&self) -> (r: bool) {
        false
    }

    fn is_terminal(&self) -> (r: bool) {
        false
    }
}

impl ErrorClass for ReceiveActorMessageErr {
    open spec fn spec_is_network_conn_err(&self) -> bool {
        false
    }

    open spec fn spec_is_terminal(&self) -> bool {
        false
    }

    fn is_network_conn_err(&self) -> (r: bool) {
        false
    }

    fn is_terminal(&self) -> (r: bool) {
        false
    }
}

impl ErrorClass for MockError {
    open spec fn spec_is_network_conn_err(&self) -> bool {
        self.is_network_conn_err
    }

    open spec fn spec_is_terminal(&self) -> bool {
        false
    }

    fn is_network_conn_err(&self) -> (r: bool) {
        self.is_network_conn_err
    }

    fn is_terminal(&self) -> (r: bool) {
        false
    }
}

impl ErrorClass for AuthnErr {
    open spec fn spec_is_network_conn_err(&self) -> bool {
        match self {
            AuthnErr::TimestampConversionErr(e) => e.spec_is_network_conn_err(),
            AuthnErr::CryptErr(e) => e.spec_is_network_conn_err(),
            AuthnErr::FileSysErr(e) => e.spec_is_network_conn_err(),
            AuthnErr::SerdeErr(e) => e.spec_is_network_conn_err(),
            AuthnErr::SendActorMessageErr(e) => e.spec_is_network_conn_err(),
            AuthnErr::ReceiveActorMessageErr(e) => e.spec_is_network_conn_err(),
            AuthnErr::MockError(e) => e.spec_is_network_conn_err(),
        }
    }

    open spec fn spec_is_terminal(&self) -> bool {
        match self {
            AuthnErr::TimestampConversionErr(e) => e.spec_is_terminal(),
            AuthnErr::CryptErr(e) => e.spec_is_terminal(),
            AuthnErr::FileSysErr(e) => e.spec_is_terminal(),
            AuthnErr::SerdeErr(e) => e.spec_is_terminal(),
            AuthnErr::SendActorMessageErr(e) => e.spec_is_terminal(),
            AuthnErr::ReceiveActorMessageErr(e) => e.spec_is_terminal(),
            AuthnErr::MockError(e) => e.spec_is_terminal(),
        }
    }

    fn is_network_conn_err(&self) -> (r: bool) {
        match self {
            AuthnErr::TimestampConversionErr(e) => e.is_network_conn_err(),
            AuthnErr::CryptErr(e) => e.is_network_conn_err(),
            AuthnErr::FileSysErr(e) => e.is_network_conn_err(),
            AuthnErr::SerdeErr(e) => e.is_network_conn_err(),
            AuthnErr::SendActorMessageErr(e) => e.is_network_conn_err(),
            AuthnErr::ReceiveActorMessageErr(e) => e.is_network_conn_err(),
            AuthnErr::MockError(e) => e.is_network_conn_err(),
        }
    }

    fn is_terminal(&self) -> (r: bool) {
        match self {
            AuthnErr::TimestampConversionErr(e) => e.is_terminal(),
            AuthnErr::CryptErr(e) => e.is_terminal(),
            AuthnErr::FileSysErr(e) => e.is_terminal(),
            AuthnErr::SerdeErr(e) => e.is_terminal(),
            AuthnErr::SendActorMessageErr(e) => e.is_terminal(),
            AuthnErr::ReceiveActorMessageErr(e) => e.is_terminal(),
            AuthnErr::MockError(e) => e.is_terminal(),
        }
    }
}

} // verus!
