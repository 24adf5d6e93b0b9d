pub mod scanner;
pub mod state;
