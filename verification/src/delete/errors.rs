use vstd::prelude::*;

pub use crate::cache::errors::{ReceiveActorMessageErr, SendActorMessageErr};
use crate::errors::ErrorClass;

verus! {

/// A pending deletion refused because the queue is at capacity.
#[derive(Debug)]
pub struct QueueFullErr {
    pub capacity: usize,
    pub file: String,
}

/// Failures of the deleter.
#[derive(Debug)]
pub enum DeleteErr {
    QueueFullErr(QueueFullErr),
    SendActorMessageErr(SendActorMessageErr),
    ReceiveActorMessageErr(ReceiveActorMessageErr),
}

impl ErrorClass for QueueFullErr {
    open spec fn spec_is_network_conn_err(&self) -> bool {
        false
    }

    open spec fn spec_is_terminal(&self) -> bool {
        false
    }

    fn is_network_conn_err(&self) -> (r: bool) {
        false
    }

    fn is_terminal(&self) -> (r: bool) {
        false
    }
}

impl ErrorClass for DeleteErr {
    open spec fn spec_is_network_conn_err(&self) -> bool {
        false
    }

    open spec fn spec_is_terminal(&self) -> bool {
        false
    }

    fn is_network_conn_err(&self) -> (r: bool) {
        false
    }

    fn is_terminal(&self) -> (r: bool) {
        false
    }
}

} // verus!
