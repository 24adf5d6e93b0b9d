pub mod apply;
pub mod errors;
pub mod filesys;
pub mod fsm;

pub use self::errors::DeployErr;
