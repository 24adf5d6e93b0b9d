pub mod base64;
pub mod errors;
pub mod jwt;
pub mod rsa;

pub use self::errors::CryptErr;
