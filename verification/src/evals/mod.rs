//! Grading an agent: cases, outcomes, metrics and reports.

pub mod golden;
pub mod harness;
pub mod iris;
pub mod layout;
pub mod metric_laws;
pub mod metrics;
pub mod outcome;
pub mod play_laws;
pub mod playback;
pub mod report;
pub mod report_laws;
pub mod run_laws;
pub mod server;
pub mod staging;
pub mod suite;
pub mod trajectory;
