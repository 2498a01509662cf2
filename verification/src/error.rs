//! Errors of the harness.
use vstd::prelude::*;
use crate::text::{decimal, owned, push_decimal_u64, push_str};

verus! {

/// Error of any harness operation. Errors raised by outside libraries (HTTP,
/// JSON, I/O) arrive here as their message text.
#[derive(Debug, Clone)]
pub enum Error {
    /// Error from the OpenRouter API.
    OpenRouter(String),
    /// HTTP request error.
    Http(String),
    /// Serialization/deserialization error.
    Serialization(String),
    /// Agent error.
    Agent(String),
    /// Tool execution error.
    ToolExecution { tool: String, message: String },
    /// Handoff error.
    Handoff(String),
    /// Guardrail violation.
    GuardrailViolation { guardrail: String, reason: String },
    /// Approval denied.
    ApprovalDenied(String),
    /// Approval timeout.
    ApprovalTimeout(String),
    /// Configuration error.
    Config(String),
    /// Context window exceeded.
    ContextWindowExceeded { current: u64, max: u64 },
    /// Maximum loops exceeded.
    MaxLoopsExceeded(u32),
    /// Session not found.
    SessionNotFound(String),
    /// Storage error.
    Storage(String),
    /// Tracing error.
    Tracing(String),
    /// Rate limit exceeded.
    RateLimitExceeded(String),
    /// Invalid input.
    InvalidInput(String),
    /// Operation timed out.
    Timeout(String),
    /// IO error.
    Io(String),
    /// JSON Schema validation error.
    JsonSchema(String),
    /// Generic error.
    Other(String),
}

/// `r` is a configuration error with message `msg`.
pub open spec fn is_config_error<T>(r: Result<T, Error>, msg: Seq<char>) -> bool {
    match r {
        Err(Error::Config(m)) => m@ == msg,
        _ => false,
    }
}

/// The text an error displays.
pub open spec fn error_text(e: Error) -> Seq<char> {
    match e {
        Error::OpenRouter(m) => "OpenRouter API error: "@ + m@,
        Error::Http(m) => "HTTP error: "@ + m@,
        Error::Serialization(m) => "Serialization error: "@ + m@,
        Error::Agent(m) => "Agent error: "@ + m@,
        Error::ToolExecution { tool, message } => "Tool execution error: "@ + tool@ + ": "@
            + message@,
        Error::Handoff(m) => "Handoff error: "@ + m@,
        Error::GuardrailViolation { guardrail, reason } => "Guardrail violation: "@ + guardrail@
            + ": "@ + reason@,
        Error::ApprovalDenied(m) => "Approval denied: "@ + m@,
        Error::ApprovalTimeout(m) => "Approval timeout: "@ + m@,
        Error::Config(m) => "Configuration error: "@ + m@,
        Error::ContextWindowExceeded { current, max } => "Context window exceeded: "@ + decimal(
            current as nat,
        ) + " tokens (max: "@ + decimal(max as nat) + ")"@,
        Error::MaxLoopsExceeded(n) => "Maximum loops exceeded: "@ + decimal(n as nat),
        Error::SessionNotFound(m) => "Session not found: "@ + m@,
        Error::Storage(m) => "Storage error: "@ + m@,
        Error::Tracing(m) => "Tracing error: "@ + m@,
        Error::RateLimitExceeded(m) => "Rate limit exceeded: "@ + m@,
        Error::InvalidInput(m) => "Invalid input: "@ + m@,
        Error::Timeout(m) => "Operation timed out: "@ + m@,
        Error::Io(m) => "IO error: "@ + m@,
        Error::JsonSchema(m) => "JSON Schema validation error: "@ + m@,
        Error::Other(m) => m@,
    }
}

fn prefixed(prefix: &str, m: &String) -> (r: String)
    ensures
        r@ == prefix@ + m@,
{
    let mut r = owned(prefix);
    push_str(&mut r, m.as_str());
    r
}

impl Error {
    /// An OpenRouter error.
    pub fn openrouter(msg: String) -> (e: Error)
        ensures
            e == Error::OpenRouter(msg),
    {
        Error::OpenRouter(msg)
    }

    /// An agent error.
    pub fn agent(msg: String) -> (e: Error)
        ensures
            e == Error::Agent(msg),
    {
        Error::Agent(msg)
    }

    /// A tool execution error.
    pub fn tool_execution(tool: String, message: String) -> (e: Error)
        ensures
            e == (Error::ToolExecution { tool, message }),
    {
        Error::ToolExecution { tool, message }
    }

    /// A handoff error.
    pub fn handoff(msg: String) -> (e: Error)
        ensures
            e == Error::Handoff(msg),
    {
        Error::Handoff(msg)
    }

    /// A guardrail violation.
    pub fn guardrail_violation(guardrail: String, reason: String) -> (e: Error)
        ensures
            e == (Error::GuardrailViolation { guardrail, reason }),
    {
        Error::GuardrailViolation { guardrail, reason }
    }

    /// A configuration error.
    pub fn config(msg: String) -> (e: Error)
        ensures
            e == Error::Config(msg),
    {
        Error::Config(msg)
    }

    /// A storage error.
    pub fn storage(msg: String) -> (e: Error)
        ensures
            e == Error::Storage(msg),
    {
        Error::Storage(msg)
    }

    /// Any other error.
    pub fn other(msg: String) -> (e: Error)
        ensures
            e == Error::Other(msg),
    {
        Error::Other(msg)
    }

    /// The text this error displays.
    pub fn to_text(&self) -> (s: String)
        ensures
            s@ == error_text(*self),
    {
        match self {
            Error::OpenRouter(m) => prefixed("OpenRouter API error: ", m),
            Error::Http(m) => prefixed("HTTP error: ", m),
            Error::Serialization(m) => prefixed("Serialization error: ", m),
            Error::Agent(m) => prefixed("Agent error: ", m),
            Error::ToolExecution { tool, message } => {
                let mut r = prefixed("Tool execution error: ", tool);
                push_str(&mut r, ": ");
                push_str(&mut r, message.as_str());
                r
            },
            Error::Handoff(m) => prefixed("Handoff error: ", m),
            Error::GuardrailViolation { guardrail, reason } => {
                let mut r = prefixed("Guardrail violation: ", guardrail);
                push_str(&mut r, ": ");
                push_str(&mut r, reason.as_str());
                r
            },
            Error::ApprovalDenied(m) => prefixed("Approval denied: ", m),
            Error::ApprovalTimeout(m) => prefixed("Approval timeout: ", m),
            Error::Config(m) => prefixed("Configuration error: ", m),
            Error::ContextWindowExceeded { current, max } => {
                let mut r = owned("Context window exceeded: ");
                push_decimal_u64(&mut r, *current);
                push_str(&mut r, " tokens (max: ");
                push_decimal_u64(&mut r, *max);
                push_str(&mut r, ")");
                r
            },
            Error::MaxLoopsExceeded(n) => {
                let mut r = owned("Maximum loops exceeded: ");
                push_decimal_u64(&mut r, *n as u64);
                r
            },
            Error::SessionNotFound(m) => prefixed("Session not found: ", m),
            Error::Storage(m) => prefixed("Storage error: ", m),
            Error::Tracing(m) => prefixed("Tracing error: ", m),
            Error::RateLimitExceeded(m) => prefixed("Rate limit exceeded: ", m),
            Error::InvalidInput(m) => prefixed("Invalid input: ", m),
            Error::Timeout(m) => prefixed("Operation timed out: ", m),
            Error::Io(m) => prefixed("IO error: ", m),
            Error::JsonSchema(m) => prefixed("JSON Schema validation error: ", m),
            Error::Other(m) => owned(m.as_str()),
        }
    }
}

} // verus!
