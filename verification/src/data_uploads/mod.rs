pub mod queue;
pub mod retention;
pub mod upload;
pub mod scan;
