use miru_agent::authn::errors::MockError;
use miru_agent::data_uploads::upload::errors::{
    classified_executor_err, executor_err, AttemptTimeoutErr, ExecutorErr, TransferErr, UploadErr,
};
use miru_agent::errors::ErrorClass;

/// A connection failure of the object-storage client `store` for `bucket/key`, as the
/// transfer layer classifies it: a network error, not terminal.
fn connection_err(store: &str, bucket: &str, key: &str) -> ExecutorErr {
    ExecutorErr {
        source: format!("{store} object {bucket}/{key}: connection refused"),
        is_terminal: false,
        is_network_conn_err: true,
    }
}

/// A request the backend rejected with a client error: terminal, not a network error.
fn request_rejected() -> ExecutorErr {
    ExecutorErr {
        source: "400 Bad Request".to_string(),
        is_terminal: true,
        is_network_conn_err: false,
    }
}

#[test]
fn classified_network_source_sets_flag() {
    let err = classified_executor_err(
        MockError {
            is_network_conn_err: true,
        },
        "mock error (is network connection error: true)",
    );
    assert!(err.is_network_conn_err());
    assert!(!err.is_terminal());
}

#[test]
fn classified_non_network_source_clears_flag() {
    let err = classified_executor_err(
        MockError {
            is_network_conn_err: false,
        },
        "mock error (is network connection error: false)",
    );
    assert!(!err.is_network_conn_err());
}

#[test]
fn classified_s3_connection_err_is_network() {
    let source = connection_err("s3", "bucket", "key");
    let msg = source.source.clone();
    let err = classified_executor_err(source, &msg);
    assert!(err.is_network_conn_err());
    assert!(!err.is_terminal());
    match err {
        UploadErr::ExecutorErr(e) => assert_eq!(e.source, "s3 object bucket/key: connection refused"),
        other => panic!("unexpected {other:?}"),
    }
}

#[test]
fn classified_gcs_connection_err_is_network() {
    let source = connection_err("gcs", "bucket", "key");
    let msg = source.source.clone();
    let err = classified_executor_err(source, &msg);
    assert!(err.is_network_conn_err());
    assert!(!err.is_terminal());
    match err {
        UploadErr::ExecutorErr(e) => assert_eq!(e.source, "gcs object bucket/key: connection refused"),
        other => panic!("unexpected {other:?}"),
    }
}

#[test]
fn classified_authn_mock_network_err_is_network() {
    let err = classified_executor_err(
        miru_agent::authn::errors::AuthnErr::MockError(MockError {
            is_network_conn_err: true,
        }),
        "mock error (is network connection error: true)",
    );
    assert!(err.is_network_conn_err());
}

#[test]
fn executor_err_defaults_to_non_network() {
    let err = executor_err("some message");
    assert!(!err.is_network_conn_err());
    assert!(!err.is_terminal());
}

#[test]
fn classified_terminal_source_is_terminal() {
    let err = classified_executor_err(request_rejected(), "400 Bad Request");
    assert!(err.is_terminal());
    assert!(!err.is_network_conn_err());
}

#[test]
fn executor_err_keeps_the_message() {
    match executor_err("some message") {
        UploadErr::ExecutorErr(e) => assert_eq!(e.source, "some message"),
        other => panic!("expected ExecutorErr, got {other:?}"),
    }
    match classified_executor_err(request_rejected(), "rejected") {
        UploadErr::ExecutorErr(e) => {
            assert_eq!(e.source, "rejected");
            assert!(e.is_terminal);
            assert!(!e.is_network_conn_err);
        }
        other => panic!("expected ExecutorErr, got {other:?}"),
    }
}

#[test]
fn timeouts_and_transfer_errors_are_neither_terminal_nor_network() {
    let err = UploadErr::AttemptTimeoutErr(AttemptTimeoutErr {
        file: "/data/a.log".to_string(),
        size: 4,
        deadline_secs: 120,
    });
    assert!(!err.is_terminal());
    assert!(!err.is_network_conn_err());
    assert!(!TransferErr::MissingS3Credentials.is_terminal());
    assert_eq!(
        TransferErr::UnrecognizedScheme.message(),
        "unrecognized upload credential scheme"
    );
    assert_eq!(
        TransferErr::MissingGcsCredentials.message(),
        "gcs scheme is missing gcs_credentials"
    );
}
