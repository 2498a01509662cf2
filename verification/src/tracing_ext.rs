//! Records of traced work: traces, spans and pattern settings.
use vstd::prelude::*;
use std::time::Duration;
use crate::json::Json;
use crate::types::{SpanId, TokenUsage, TraceId};

verus! {

/// Kind of traced work.
#[derive(Debug, Clone)]
pub enum SpanType {
    AgentRun,
    LlmGeneration,
    ToolCall,
    Handoff,
    GuardrailCheck,
    ReActThought,
    ReActAction,
    ReActObservation,
    Custom(String),
}

/// Data of a span, each key once.
#[derive(Debug)]
pub struct SpanData {
    /// Entries.
    pub data: Vec<(String, Json)>,
}

/// A unit of traced work. Times are milliseconds since the Unix epoch.
#[derive(Debug)]
pub struct Span {
    /// Span id.
    pub span_id: SpanId,
    /// Enclosing span.
    pub parent_id: Option<SpanId>,
    /// Kind of work.
    pub span_type: SpanType,
    /// Name.
    pub name: String,
    /// Start.
    pub started_at: i64,
    /// End.
    pub ended_at: Option<i64>,
    /// Data.
    pub data: SpanData,
    /// Nested spans.
    pub children: Vec<Span>,
}

/// Custom trace data, each key once.
#[derive(Debug)]
pub struct TraceMetadata {
    /// Entries.
    pub custom: Vec<(String, Json)>,
}

/// A trace of one piece of work.
#[derive(Debug)]
pub struct Trace {
    /// Trace id.
    pub trace_id: TraceId,
    /// Name.
    pub name: String,
    /// The outermost span.
    pub root_span: Span,
    /// Custom data.
    pub metadata: TraceMetadata,
    /// How long it took.
    pub duration: Duration,
    /// Tokens spent.
    pub total_tokens: TokenUsage,
}

/// What a pattern does when an agent fails.
#[derive(Debug, Clone, Copy)]
pub enum FailureMode {
    /// Stop at the first failure.
    FailFast,
    /// Go on without the failed agent.
    FailSafe,
    /// Try again, up to `max_attempts` times, waiting `backoff` between tries.
    Retry { max_attempts: u32, backoff: Duration },
}

/// Settings of a pattern run.
#[derive(Debug)]
pub struct PatternConfig {
    /// Time allowed.
    pub timeout: Duration,
    /// Failure handling.
    pub failure_mode: FailureMode,
    /// Token budget.
    pub token_budget: Option<u64>,
    /// Pattern-specific parameters, each key once.
    pub params: Vec<(String, Json)>,
}

} // verus!
