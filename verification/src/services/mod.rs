//! Services of the backend.

pub mod storage;
