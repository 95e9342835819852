pub mod access;
pub mod bus;
pub mod config;
pub mod messages;
pub mod prompt;
pub mod runner;
pub mod session;
pub mod telegram;
