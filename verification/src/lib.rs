//! A verified core for a local proxy in front of LLM APIs.

pub mod config;
pub mod environment;
pub mod format;
pub mod headers;
pub mod json;
pub mod lists;
pub mod literals;
pub mod log;
pub mod plan_laws;
pub mod proxy;
pub mod relay;
pub mod retry;
pub mod text;
pub mod transform;
