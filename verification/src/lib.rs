//! Metrics-proxy gateway core: the metric catalog, the upstream query plan,
//! the error taxonomy, the request admission pipeline and the lifecycle
//! controller, each stated over mathematical models and proved.

pub mod application;
pub mod cli;
pub mod configuration;
pub mod domain;
pub mod error;
pub mod handler;
pub mod log;
pub mod text;
