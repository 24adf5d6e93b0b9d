use miru_agent::app::shutdown::{
    app_state_shutdown_order, AppPart, Component, FirstErr, ShutdownRegistry,
};

#[test]
fn register_handle_rejects_duplicates() {
    let mut registry = ShutdownRegistry::new();
    assert!(registry
        .register(Component::TokenRefreshWorker, "token_refresh_handle")
        .is_ok());
    let err = registry
        .register(Component::TokenRefreshWorker, "token_refresh_handle")
        .expect_err("duplicate token refresh handle should error");
    assert_eq!(err.arg_name, "token_refresh_handle");
    assert!(registry.is_registered(Component::TokenRefreshWorker));
    assert!(!registry.is_registered(Component::AppState));
}

#[test]
fn plan_stops_workers_before_the_scanner_and_the_app_state_last() {
    let mut registry = ShutdownRegistry::new();
    for (c, name) in [
        (Component::AppState, "app_state"),
        (Component::Scanner, "scanner"),
        (Component::ScanBridgeWorker, "scan_bridge_handle"),
        (Component::SocketServer, "server_handle"),
        (Component::ScanWorker, "scan_handle"),
        (Component::PollerWorker, "poller_handle"),
    ] {
        registry.register(c, name).unwrap();
    }
    assert_eq!(
        registry.plan(),
        vec![
            Component::PollerWorker,
            Component::SocketServer,
            Component::ScanWorker,
            Component::ScanBridgeWorker,
            Component::Scanner,
            Component::AppState,
        ]
    );
    assert!(ShutdownRegistry::new().plan().is_empty());
}

#[test]
fn shutdown_returns_the_first_error() {
    let mut errs: FirstErr<&str> = FirstErr::new();
    assert_eq!(FirstErr::<&str>::new().into_result(), Ok(()));
    errs.record("poller");
    errs.record("server");
    assert_eq!(errs.into_result(), Err("poller"));
}

#[test]
fn app_state_stops_the_uploader_first_and_the_token_manager_last() {
    assert_eq!(
        app_state_shutdown_order(),
        vec![
            AppPart::Uploader,
            AppPart::Deleter,
            AppPart::Scanner,
            AppPart::Syncer,
            AppPart::EventHub,
            AppPart::Storage,
            AppPart::TokenManager,
        ]
    );
}
