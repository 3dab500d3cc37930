//! The records that the store holds.

pub mod article;
