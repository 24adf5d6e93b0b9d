use vstd::prelude::*;

use crate::filesys::FileSysErr;

verus! {

#[derive(Debug)]
pub struct CacheElementNotFound {
    pub msg: String,
}

#[derive(Debug)]
pub struct FoundTooManyCacheElements {
    pub expected_count: usize,
    pub actual_count: usize,
    pub filter_name: String,
}

#[derive(Debug)]
pub struct CannotOverwriteCacheElement {
    pub key: String,
}

#[derive(Debug)]
pub struct SendActorMessageErr {
    pub source: String,
}

#[derive(Debug)]
pub struct ReceiveActorMessageErr {
    pub source: String,
}

/// Errors of the caches.
#[derive(Debug)]
pub enum CacheErr {
    CacheElementNotFound(CacheElementNotFound),
    CannotOverwriteCacheElement(CannotOverwriteCacheElement),
    FileSysErr(FileSysErr),
    FoundTooManyCacheElements(FoundTooManyCacheElements),
    SendActorMessageErr(SendActorMessageErr),
    ReceiveActorMessageErr(ReceiveActorMessageErr),
}

impl crate::errors::ErrorClass for CacheErr {
    open spec fn spec_is_network_conn_err(&self) -> bool {
        false
    }

    open spec fn spec_is_terminal(&self) -> bool {
        false
    }

    fn is_network_conn_err(&self) -> (r: bool) {
        false
    }

    fn is_terminal(&self) -> (r: bool) {
        false
    }
}

impl crate::errors::ErrorClass for CacheElementNotFound {
    open spec fn spec_is_network_conn_err(&self) -> bool {
        false
    }

    open spec fn spec_is_terminal(&self) -> bool {
        false
    }

    fn is_network_conn_err(&self) -> (r: bool) {
        false
    }

    fn is_terminal(&self) -> (r: bool) {
        false
    }
}

impl crate::errors::ErrorClass for FoundTooManyCacheElements {
    open spec fn spec_is_network_conn_err(&self) -> bool {
        false
    }

    open spec fn spec_is_terminal(&self) -> bool {
        false
    }

    fn is_network_conn_err(&self) -> (r: bool) {
        false
    }

    fn is_terminal(&self) -> (r: bool) {
        false
    }
}

impl crate::errors::ErrorClass for CannotOverwriteCacheElement {
    open spec fn spec_is_network_conn_err(&self) -> bool {
        false
    }

    open spec fn spec_is_terminal(&self) -> bool {
        false
    }

    fn is_network_conn_err(&self) -> (r: bool) {
        false
    }

    fn is_terminal(&self) -> (r: bool) {
        false
    }
}

impl crate::errors::ErrorClass for SendActorMessageErr {
    open spec fn spec_is_network_conn_err(&self) -> bool {
        false
    }

    open spec fn spec_is_terminal(&self) -> bool {
        false
    }

    fn is_network_conn_err(&self) -> (r: bool) {
        false
    }

    fn is_terminal(&self) -> (r: bool) {
        false
    }
}

impl crate::errors::ErrorClass for ReceiveActorMessageErr {
    open spec fn spec_is_network_conn_err(&self) -> bool {
        false
    }

    open spec fn spec_is_terminal(&self) -> bool {
        false
    }

    fn is_network_conn_err(&self) -> (r: bool) {
        false
    }

    fn is_terminal(&self) -> (r: bool) {
        false
    }
}

} // verus!
