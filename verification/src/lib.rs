//! Verified core of an agent orchestration harness.
pub mod agent;
pub mod agent_file;
pub mod background;
pub mod config;
pub mod error;
pub mod filesystem;
pub mod guardrails;
pub mod handoffs;
pub mod hitl;
pub mod json;
pub mod memory;
pub mod memory_tools;
pub mod openrouter;
pub mod orchestrator;
pub mod patterns;
pub mod processes;
pub mod react;
pub mod sleeptime;
pub mod tally;
pub mod scans;
pub mod solid;
pub mod text;
pub mod tools;
pub mod tracing_ext;
pub mod traffic;
pub mod turns;
pub mod types;
pub mod vllm;
