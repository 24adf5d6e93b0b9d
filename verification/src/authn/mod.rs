pub mod errors;
pub mod issue;

pub use self::errors::AuthnErr;
