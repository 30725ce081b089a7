//! Verified core of the multiplayer game selection service.

pub mod ai;
pub mod dbtool;
pub mod hashing;
pub mod laws;
pub mod numbers;
pub mod score;
pub mod server;
pub mod sort;
pub mod text;
