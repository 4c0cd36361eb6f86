//! Hashing chips and the threads that drive them.

pub mod bm13xx;
pub mod hash_thread;
