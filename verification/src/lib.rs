pub mod cooldown;
pub mod errors;
pub mod models;
pub mod time;
pub mod deploy;
pub mod cli;
pub mod app;
pub mod filesys;
pub mod cache;
pub mod crypt;
pub mod text;
pub mod data_uploads;
pub mod authn;
pub mod delete;
