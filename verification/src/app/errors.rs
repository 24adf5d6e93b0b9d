use vstd::prelude::*;

use crate::authn::AuthnErr;
use crate::errors::ErrorClass;
use crate::filesys::FileSysErr;

verus! {

/// Failures of resetting the agent's state for a new version.
#[derive(Debug)]
pub enum UpgradeErr {
    AuthnErr(AuthnErr),
    FileSysErr(FileSysErr),
}

impl ErrorClass for UpgradeErr {
    open spec fn spec_is_network_conn_err(&self) -> bool {
        match self {
            UpgradeErr::AuthnErr(e) => e.spec_is_network_conn_err(),
            UpgradeErr::FileSysErr(e) => e.spec_is_network_conn_err(),
        }
    }

    open spec fn spec_is_terminal(&self) -> bool {
        match self {
            UpgradeErr::AuthnErr(e) => e.spec_is_terminal(),
            UpgradeErr::FileSysErr(e) => e.spec_is_terminal(),
        }
    }

    fn is_network_conn_err(&self) -> (r: bool) {
        match self {
            UpgradeErr::AuthnErr(e) => e.is_network_conn_err(),
            UpgradeErr::FileSysErr(e) => e.is_network_conn_err(),
        }
    }

    fn is_terminal(&self) -> (r: bool) {
        match self {
            UpgradeErr::AuthnErr(e) => e.is_terminal(),
            UpgradeErr::FileSysErr(e) => e.is_terminal(),
        }
    }
}

} // verus!
