pub mod deleter;
pub mod errors;
pub mod job;
pub mod sink;

pub use self::deleter::SingleThreadDeleter;
pub use self::errors::DeleteErr;
pub use self::job::Job;
