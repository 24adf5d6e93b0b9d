use vstd::prelude::*;

pub use crate::data_uploads::queue::QueueFullErr;
pub use crate::cache::errors::{ReceiveActorMessageErr, SendActorMessageErr};
use crate::errors::ErrorClass;

verus! {

/// Failures of the retention deleter.
#[derive(Debug)]
pub enum DeleteErr {
    QueueFullErr(QueueFullErr),
    SendActorMessageErr(SendActorMessageErr),
    ReceiveActorMessageErr(ReceiveActorMessageErr),
}

impl ErrorClass for DeleteErr {
    open spec fn spec_is_network_conn_err(&self) -> bool {
        match self {
            DeleteErr::QueueFullErr(e) => e.spec_is_network_conn_err(),
            DeleteErr::SendActorMessageErr(e) => e.spec_is_network_conn_err(),
            DeleteErr::ReceiveActorMessageErr(e) => e.spec_is_network_conn_err(),
        }
    }

    open spec fn spec_is_terminal(&self) -> bool {
        match self {
            DeleteErr::QueueFullErr(e) => e.spec_is_terminal(),
            DeleteErr::SendActorMessageErr(e) => e.spec_is_terminal(),
            DeleteErr::ReceiveActorMessageErr(e) => e.spec_is_terminal(),
        }
    }

    fn is_network_conn_err(&self) -> (r: bool) {
        match self {
            DeleteErr::QueueFullErr(e) => e.is_network_conn_err(),
            DeleteErr::SendActorMessageErr(e) => e.is_network_conn_err(),
            DeleteErr::ReceiveActorMessageErr(e) => e.is_network_conn_err(),
        }
    }

    fn is_terminal(&self) -> (r: bool) {
        match self {
            DeleteErr::QueueFullErr(e) => e.is_terminal(),
            DeleteErr::SendActorMessageErr(e) => e.is_terminal(),
            DeleteErr::ReceiveActorMessageErr(e) => e.is_terminal(),
        }
    }
}

} // verus!
