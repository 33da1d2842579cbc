//! A check that runs `cargo audit`, relays what it prints, takes its exit
//! code for the verdict and, where advisories were found, composes the
//! issue that reports them.
pub mod advisory;
pub mod audit;
pub mod channel;
pub mod error;
pub mod field;
pub mod issue;
pub mod publish;
pub mod relay;
pub mod report;
pub mod runtime;
pub mod split;
pub mod text;
