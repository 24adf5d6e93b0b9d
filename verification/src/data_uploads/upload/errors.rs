use vstd::prelude::*;

pub use crate::cache::errors::{ReceiveActorMessageErr, SendActorMessageErr};
pub use crate::data_uploads::queue::QueueFullErr;
use crate::errors::ErrorClass;

verus! {

/// A failure of the upload executor or transfer layer, with its classification.
/// `source` is the text of the underlying failure.
#[derive(Debug)]
pub struct ExecutorErr {
    pub source: String,
    pub is_terminal: bool,
    pub is_network_conn_err: bool,
}

/// An upload attempt that ran past its deadline (whole seconds).
#[derive(Debug)]
pub struct AttemptTimeoutErr {
    pub file: String,
    pub size: u64,
    pub deadline_secs: u64,
}

/// The transfer layer's own preconditions.
#[derive(Debug, Clone, Copy, PartialEq, Eq, Structural)]
pub enum TransferErr {
    UnrecognizedScheme,
    MissingS3Credentials,
    MissingGcsCredentials,
}

impl TransferErr {
    /// The text of the failure.
    pub fn message(&self) -> (r: &'static str)
        ensures
            r@ == match self {
                TransferErr::UnrecognizedScheme => "unrecognized upload credential scheme"@,
                TransferErr::MissingS3Credentials => "s3 scheme is missing s3_credentials"@,
                TransferErr::MissingGcsCredentials => "gcs scheme is missing gcs_credentials"@,
            },
    {
        match self {
            TransferErr::UnrecognizedScheme => "unrecognized upload credential scheme",
            TransferErr::MissingS3Credentials => "s3 scheme is missing s3_credentials",
            TransferErr::MissingGcsCredentials => "gcs scheme is missing gcs_credentials",
        }
    }
}

/// Failures of the uploader.
#[derive(Debug)]
pub enum UploadErr {
    QueueFullErr(QueueFullErr),
    ExecutorErr(ExecutorErr),
    AttemptTimeoutErr(AttemptTimeoutErr),
    SendActorMessageErr(SendActorMessageErr),
    ReceiveActorMessageErr(ReceiveActorMessageErr),
}

impl ErrorClass for ExecutorErr {
    open spec fn spec_is_network_conn_err(&self) -> bool {
        self.is_network_conn_err
    }

    open spec fn spec_is_terminal(&self) -> bool {
        self.is_terminal
    }

    fn is_network_conn_err(&self) -> (r: bool) {
        self.is_network_conn_err
    }

    fn is_terminal(&self) -> (r: bool) {
        self.is_terminal
    }
}

impl ErrorClass for AttemptTimeoutErr {
    open spec fn spec_is_network_conn_err(&self) -> bool {
        false
    }

    open spec fn spec_is_terminal(&self) -> bool {
        false
    }

    fn is_network_conn_err(&self) -> (r: bool) {
        false
    }

    fn is_terminal(&self) -> (r: bool) {
        false
    }
}

impl ErrorClass for TransferErr {
    open spec fn spec_is_network_conn_err(&self) -> bool {
        false
    }

    open spec fn spec_is_terminal(&self) -> bool {
        false
    }

    fn is_network_conn_err(&self) -> (r: bool) {
        false
    }

    fn is_terminal(&self) -> (r: bool) {
        false
    }
}

impl ErrorClass for UploadErr {
    open spec fn spec_is_network_conn_err(&self) -> bool {
        match self {
            UploadErr::QueueFullErr(e) => e.spec_is_network_conn_err(),
            UploadErr::ExecutorErr(e) => e.spec_is_network_conn_err(),
            UploadErr::AttemptTimeoutErr(e) => e.spec_is_network_conn_err(),
            UploadErr::SendActorMessageErr(e) => e.spec_is_network_conn_err(),
            UploadErr::ReceiveActorMessageErr(e) => e.spec_is_network_conn_err(),
        }
    }

    open spec fn spec_is_terminal(&self) -> bool {
        match self {
            UploadErr::QueueFullErr(e) => e.spec_is_terminal(),
            UploadErr::ExecutorErr(e) => e.spec_is_terminal(),
            UploadErr::AttemptTimeoutErr(e) => e.spec_is_terminal(),
            UploadErr::SendActorMessageErr(e) => e.spec_is_terminal(),
            UploadErr::ReceiveActorMessageErr(e) => e.spec_is_terminal(),
        }
    }

    fn is_network_conn_err(&self) -> (r: bool) {
        match self {
            UploadErr::QueueFullErr(e) => e.is_network_conn_err(),
            UploadErr::ExecutorErr(e) => e.is_network_conn_err(),
            UploadErr::AttemptTimeoutErr(e) => e.is_network_conn_err(),
            UploadErr::SendActorMessageErr(e) => e.is_network_conn_err(),
            UploadErr::ReceiveActorMessageErr(e) => e.is_network_conn_err(),
        }
    }

    fn is_terminal(&self) -> (r: bool) {
        match self {
            UploadErr::QueueFullErr(e) => e.is_terminal(),
            UploadErr::ExecutorErr(e) => e.is_terminal(),
            UploadErr::AttemptTimeoutErr(e) => e.is_terminal(),
            UploadErr::SendActorMessageErr(e) => e.is_terminal(),
            UploadErr::ReceiveActorMessageErr(e) => e.is_terminal(),
        }
    }
}

/// Any failure as an `UploadErr::ExecutorErr` that is neither terminal nor a network
/// connection error.
pub fn executor_err(source: &str) -> (r: UploadErr)
    ensures
        r matches UploadErr::ExecutorErr(e) && e.source@ == source@ && !e.is_terminal
            && !e.is_network_conn_err,
{
    wrap_executor_err(source, false, false)
}

/// A classified failure as an `UploadErr::ExecutorErr` that keeps its terminal and
/// network-connection classifications; `message` is the failure's text.
pub fn classified_executor_err<E: ErrorClass>(source: E, message: &str) -> (r: UploadErr)
    ensures
        r matches UploadErr::ExecutorErr(e) && e.source@ == message@ && e.is_terminal
            == source.spec_is_terminal() && e.is_network_conn_err
            == source.spec_is_network_conn_err(),
{
    let is_terminal = source.is_terminal();
    let is_network_conn_err = source.is_network_conn_err();
    wrap_executor_err(message, is_terminal, is_network_conn_err)
}

pub(crate) fn wrap_executor_err(source: &str, is_terminal: bool, is_network_conn_err: bool) -> (r:
    UploadErr)
    ensures
        r matches UploadErr::ExecutorErr(e) && e.source@ == source@ && e.is_terminal
            == is_terminal && e.is_network_conn_err == is_network_conn_err,
{
    UploadErr::ExecutorErr(ExecutorErr { source: source.to_owned(), is_terminal, is_network_conn_err })
}

} // verus!
