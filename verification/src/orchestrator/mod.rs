//! Multi-agent workflow patterns: the prompts each pattern sends, the order
//! in which agents are asked, and how their answers are combined.
pub mod concurrent;
pub mod config;
pub mod consensus;
pub mod debate;
pub mod hierarchical;
pub mod pattern;
pub mod router;
pub mod sequential;
