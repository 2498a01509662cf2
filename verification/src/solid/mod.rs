//! Identity, authentication and consent for Solid Pods.
pub mod auth;
pub mod consent;
pub mod dpop;
pub mod guardrails;
pub mod identity;
pub mod ipc;
pub mod tools;
