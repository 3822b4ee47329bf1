//! Verified core of the BountyHub job runner: cancellation contexts,
//! template parsing, configuration validation, job-engine decisions,
//! retry decisions and the step state machine of the shell worker.

pub mod ctx;
pub mod text;
pub mod templ;
pub mod config;
pub mod client;
pub mod jobengine;
pub mod engine;
pub mod worker;
pub mod paths;
pub mod recoil;
pub mod streamlog;
pub mod runner;
pub mod artifact;
