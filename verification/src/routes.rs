//! The routes of the client: which page an address stands for.

pub mod forum;
pub mod login;
