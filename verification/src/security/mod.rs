//! The permission boundary: who is acting, what they may do, and the record of
//! every time that was asked.

pub mod audit;
pub mod decision_laws;
pub mod engine;
pub mod entailment;
pub mod identifier_laws;
pub mod identity;
pub mod kernel;
pub mod kernel_laws;
pub mod laws;
pub mod matching_laws;
pub mod patterns;
pub mod policy;
pub mod record_laws;
pub mod rules;
