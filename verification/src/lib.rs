//! Request-processing core of an extensible reverse proxy: an ordered,
//! short-circuiting filter pipeline, an upstream registry with snapshot
//! semantics, a weighted-round-robin router driven by live health state,
//! and the per-request engine that ties them together.

pub mod strcmp;
pub mod context;
pub mod filter;
pub mod registry;
pub mod router;
pub mod engine;
pub mod plugins;
pub mod config;
pub mod sd;
pub mod admin;
pub mod control;
pub mod http;
