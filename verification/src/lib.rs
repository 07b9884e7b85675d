pub mod cmd;
pub mod config;
pub mod git;
pub mod json;
pub mod session;
pub mod store;
pub mod text;
