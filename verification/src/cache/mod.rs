//! Shared caches: what is in them, and who may read it.

pub mod entry;
pub mod federation;
pub mod lookup;
pub mod pool;
pub mod reuse_laws;
