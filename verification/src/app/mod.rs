pub mod errors;
pub mod metadata_sync;
pub mod options;
pub mod run;
pub mod shutdown;
pub mod upgrade;
pub mod wait_for_activation;
