//! Verified core of `xrayctl`, a manager for Xray subscriptions.

pub mod cli;
pub mod config;
pub mod json;
pub mod lifecycle;
pub mod ping;
pub mod profiles;
pub mod subscription;
pub mod subscription_client;
pub mod text;
pub mod xray;
