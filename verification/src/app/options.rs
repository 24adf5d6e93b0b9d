use vstd::prelude::*;

use crate::deploy::fsm::RetryPolicy;

verus! {

/// How long the agent runs and how it winds down. Durations are in seconds.
#[derive(Debug, Clone, Copy)]
pub struct LifecycleOptions {
    pub is_persistent: bool,
    pub max_runtime: u64,
    pub idle_timeout: u64,
    pub idle_timeout_poll_interval: u64,
    pub max_shutdown_delay: u64,
}

impl LifecycleOptions {
    /// Persistent, with a 15 minute maximum runtime, a 60 second idle timeout polled
    /// every 5 seconds, and at most 15 seconds to shut down.
    pub fn default() -> (r: Self)
        ensures
            r.is_persistent,
            r.max_runtime == 900,
            r.idle_timeout == 60,
            r.idle_timeout_poll_interval == 5,
            r.max_shutdown_delay == 15,
    {
        LifecycleOptions {
            is_persistent: true,
            max_runtime: 60 * 15,
            idle_timeout: 60,
            idle_timeout_poll_interval: 5,
            max_shutdown_delay: 15,
        }
    }
}

/// The agent's configuration: its lifecycle, the retry policy of deployments, the
/// backend it talks to, and which of its servers and workers run.
#[derive(Debug)]
pub struct AppOptions {
    pub lifecycle: LifecycleOptions,
    pub dpl_retry_policy: RetryPolicy,
    pub backend_base_url: String,
    pub enable_socket_server: bool,
    pub enable_mqtt_worker: bool,
    pub enable_poller: bool,
}

impl AppOptions {
    /// The default lifecycle and retry policy, the production backend, and every
    /// server and worker enabled.
    pub fn default() -> (r: Self)
        ensures
            r.lifecycle.is_persistent,
            r.lifecycle.max_runtime == 900,
            r.dpl_retry_policy.max_attempts == 2147483647,
            r.dpl_retry_policy.backoff.base_secs == 15,
            r.backend_base_url@ == "https://api.mirurobotics.com/agent/v1"@,
            r.enable_socket_server,
            r.enable_mqtt_worker,
            r.enable_poller,
    {
        AppOptions {
            lifecycle: LifecycleOptions::default(),
            dpl_retry_policy: RetryPolicy::default(),
            backend_base_url: "https://api.mirurobotics.com/agent/v1".to_owned(),
            enable_socket_server: true,
            enable_mqtt_worker: true,
            enable_poller: true,
        }
    }
}

} // verus!
