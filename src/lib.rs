//! Authentication core: a credential store guarded by a lock, salted password
//! hashing, signed session tokens and a revocation list.

pub mod db;
pub mod error;
pub mod jwt;
pub mod schemas;
pub mod session;
pub mod state;
