//! Conversation sessions and how long histories are compacted.
use vstd::prelude::*;
use crate::agent::AgentOutput;
use crate::json::Json;
use crate::react::ReActTrace;
use crate::types::{AgentId, SessionId, TokenUsage, TurnId, UserId};

verus! {

/// One exchange of a session. The timestamp is in milliseconds since the
/// Unix epoch.
#[derive(Debug)]
pub struct Turn {
    /// Turn id.
    pub id: TurnId,
    /// Session of the turn.
    pub session_id: SessionId,
    /// Agent that answered.
    pub agent_id: AgentId,
    /// The user's input.
    pub input: String,
    /// The agent's output.
    pub output: AgentOutput,
    /// When it happened.
    pub timestamp: i64,
    /// Tokens spent.
    pub token_usage: TokenUsage,
    /// Reasoning of the turn.
    pub trace: ReActTrace,
}

/// Where a session stands.
#[derive(Debug, Clone, Copy, PartialEq, Eq, Structural)]
pub enum SessionState {
    Active,
    Paused,
    Completed,
    Archived,
}

/// Data of a session. Times are milliseconds since the Unix epoch.
#[derive(Debug)]
pub struct SessionMetadata {
    /// Creation time.
    pub created_at: i64,
    /// Last change.
    pub updated_at: i64,
    /// Custom entries, each key once.
    pub custom: Vec<(String, Json)>,
}

/// A conversation.
#[derive(Debug)]
pub struct Session {
    /// Session id.
    pub id: SessionId,
    /// User, if known.
    pub user_id: Option<UserId>,
    /// Agent currently answering.
    pub current_agent: AgentId,
    /// Turns so far.
    pub turns: Vec<Turn>,
    /// Data.
    pub metadata: SessionMetadata,
    /// State.
    pub state: SessionState,
}

/// Settings of a new session.
#[derive(Debug)]
pub struct SessionConfig {
    /// Agent to answer.
    pub agent_id: AgentId,
    /// User, if known.
    pub user_id: Option<UserId>,
    /// Custom entries, each key once.
    pub metadata: Vec<(String, Json)>,
}

/// How a long history is shortened.
#[derive(Debug, Clone, Copy, PartialEq, Eq, Structural)]
pub enum CompactionStrategy {
    /// Keep the most recent turns.
    SlidingWindow { keep_recent: usize },
    /// Summarize after this many turns.
    Summarization { summarize_after: usize },
    /// Keep recent turns and summarize the middle ones.
    Hybrid { keep_recent: usize, summarize_middle: usize },
}

/// Settings of turn handling. Session storage is supplied by the caller.
#[derive(Debug)]
pub struct TurnManager {
    max_context_tokens: u64,
    compaction_strategy: CompactionStrategy,
}

impl TurnManager {
    /// A manager for contexts of `max_context_tokens` tokens that keeps the
    /// ten most recent turns.
    pub fn new(max_context_tokens: u64) -> (m: TurnManager)
        ensures
            m.max_context_tokens_spec() == max_context_tokens,
            m.compaction_strategy_spec() == (CompactionStrategy::SlidingWindow { keep_recent: 10 }),
    {
        TurnManager {
            max_context_tokens,
            compaction_strategy: CompactionStrategy::SlidingWindow { keep_recent: 10 },
        }
    }

    /// Token budget of a context.
    pub closed spec fn max_context_tokens_spec(&self) -> u64 {
        self.max_context_tokens
    }

    /// Compaction strategy.
    pub closed spec fn compaction_strategy_spec(&self) -> CompactionStrategy {
        self.compaction_strategy
    }

    /// Sets the compaction strategy.
    pub fn with_compaction_strategy(self, strategy: CompactionStrategy) -> (m: TurnManager)
        ensures
            m.max_context_tokens_spec() == self.max_context_tokens_spec(),
            m.compaction_strategy_spec() == strategy,
    {
        let mut m = self;
        m.compaction_strategy = strategy;
        m
    }

    /// Token budget of a context.
    pub fn max_context_tokens(&self) -> (n: u64)
        ensures
            n == self.max_context_tokens_spec(),
    {
        self.max_context_tokens
    }

    /// Compaction strategy.
    pub fn compaction_strategy(&self) -> (s: CompactionStrategy)
        ensures
            s == self.compaction_strategy_spec(),
    {
        self.compaction_strategy
    }
}

} // verus!
