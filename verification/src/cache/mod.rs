pub mod errors;
pub mod single_thread;
