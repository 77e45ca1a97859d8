//! Verified core of a multi-step HTTP load tester: scenario configuration,
//! request planning, outcome accounting and the latency report.

pub mod cli;
pub mod config;
pub mod error;
pub mod metrics;
pub mod sort;
pub mod text;
pub mod engine;
