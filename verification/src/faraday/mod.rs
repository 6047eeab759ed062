//! Memory with an address: a permanent diary, slips that point into it, and a
//! scratch book for ideas in flight.

pub mod diary;
pub mod ideabook;
pub mod index;
pub mod memory_laws;
