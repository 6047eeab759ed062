//! Many agents at once: their processes, the bus between them, and the storage
//! and services they share.

pub mod boot;
pub mod bus;
pub mod exchange_laws;
pub mod guarded;
pub mod harness;
pub mod service;
pub mod spawn;
pub mod storage;
