pub mod deleter;
pub mod errors;
pub mod queue;

pub use self::deleter::SingleThreadDeleter;
pub use self::errors::DeleteErr;
pub use self::queue::{DeleteQueueSnapshot, PendingDelete};
