pub mod errors;
pub mod job;
pub mod uploader;

pub use self::errors::UploadErr;
pub use self::job::Job;
