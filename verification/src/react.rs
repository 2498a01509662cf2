//! The Thought → Action → Observation cycle: its configuration, the record
//! of a run, and how actions are described.
use vstd::prelude::*;
use crate::json::{json_text, Json, JsonView};
use crate::text::{decimal, owned, push_decimal, push_str};
use crate::types::{now_millis, sat_add, SpanId, TokenUsage};

verus! {

/// Format of reasoning output.
#[derive(Debug, Clone, Copy, PartialEq, Eq, Structural)]
pub enum ReasoningFormat {
    /// `Thought: ... Action: ...`.
    ThoughtAction,
    /// `<thinking>...</thinking>`.
    XmlThinking,
    /// Structured JSON.
    JsonStructured,
}

/// How an agent reasons.
#[derive(Debug, Clone, Copy, PartialEq, Eq, Structural)]
pub struct ReActConfig {
    /// Produce explicit thoughts before actions.
    pub enable_reasoning_traces: bool,
    /// Format of the reasoning.
    pub reasoning_format: ReasoningFormat,
    /// Token budget of one reasoning step.
    pub max_reasoning_tokens: u32,
    /// Show the reasoning to observers.
    pub expose_reasoning: bool,
}

impl Default for ReActConfig {
    /// Traces on, `Thought/Action` format, 1000 tokens, reasoning exposed.
    fn default() -> (c: ReActConfig)
        ensures
            c.enable_reasoning_traces,
            c.reasoning_format == ReasoningFormat::ThoughtAction,
            c.max_reasoning_tokens == 1000,
            c.expose_reasoning,
    {
        ReActConfig {
            enable_reasoning_traces: true,
            reasoning_format: ReasoningFormat::ThoughtAction,
            max_reasoning_tokens: 1000,
            expose_reasoning: true,
        }
    }
}

/// A thought. The timestamp is in milliseconds since the Unix epoch.
#[derive(Debug)]
pub struct Thought {
    /// The thought's text.
    pub content: String,
    /// When it occurred.
    pub timestamp: i64,
    /// Tracing span.
    pub span_id: Option<SpanId>,
    /// Tokens spent producing it.
    pub tokens: TokenUsage,
}

/// Mathematical view of a thought.
pub struct ThoughtView {
    pub content: Seq<char>,
    pub timestamp: i64,
    pub span_id: Option<SpanId>,
    pub tokens: TokenUsage,
}

impl View for Thought {
    type V = ThoughtView;

    open spec fn view(&self) -> ThoughtView {
        ThoughtView {
            content: self.content@,
            timestamp: self.timestamp,
            span_id: self.span_id,
            tokens: self.tokens,
        }
    }
}

impl Clone for Thought {
    fn clone(&self) -> (r: Self)
        ensures
            r@ == self@,
    {
        Thought {
            content: self.content.clone(),
            timestamp: self.timestamp,
            span_id: self.span_id,
            tokens: self.tokens,
        }
    }
}

impl Thought {
    /// A thought with this text, no span and no tokens, stamped now.
    pub fn new(content: String) -> (t: Thought)
        ensures
            t@.content == content@,
            t@.span_id is None,
            t@.tokens == TokenUsage::spec_zero(),
    {
        Thought { content, timestamp: now_millis(), span_id: None, tokens: TokenUsage::zero() }
    }

    /// Sets the span.
    pub fn with_span_id(self, span_id: SpanId) -> (t: Thought)
        ensures
            t@ == (ThoughtView { span_id: Some(span_id), ..self@ }),
    {
        let mut t = self;
        t.span_id = Some(span_id);
        t
    }

    /// Sets the token usage.
    pub fn with_tokens(self, tokens: TokenUsage) -> (t: Thought)
        ensures
            t@ == (ThoughtView { tokens, ..self@ }),
    {
        let mut t = self;
        t.tokens = tokens;
        t
    }
}

/// What an agent does after a thought. Timestamps are milliseconds since the
/// Unix epoch.
#[derive(Debug)]
pub enum Action {
    /// Call a tool.
    ToolCall { tool_id: String, params: Json, timestamp: i64 },
    /// Hand off to another agent.
    Handoff { target_agent: String, reason: String, timestamp: i64 },
    /// Give the final answer.
    FinalAnswer { answer: String, timestamp: i64 },
}

/// Mathematical view of an action.
pub enum ActionView {
    ToolCall { tool_id: Seq<char>, params: JsonView, timestamp: i64 },
    Handoff { target_agent: Seq<char>, reason: Seq<char>, timestamp: i64 },
    FinalAnswer { answer: Seq<char>, timestamp: i64 },
}

impl View for Action {
    type V = ActionView;

    open spec fn view(&self) -> ActionView {
        match self {
            Action::ToolCall { tool_id, params, timestamp } => ActionView::ToolCall {
                tool_id: tool_id@,
                params: params@,
                timestamp: *timestamp,
            },
            Action::Handoff { target_agent, reason, timestamp } => ActionView::Handoff {
                target_agent: target_agent@,
                reason: reason@,
                timestamp: *timestamp,
            },
            Action::FinalAnswer { answer, timestamp } => ActionView::FinalAnswer {
                answer: answer@,
                timestamp: *timestamp,
            },
        }
    }
}

impl Clone for Action {
    fn clone(&self) -> (r: Self)
        ensures
            r@ == self@,
    {
        match self {
            Action::ToolCall { tool_id, params, timestamp } => Action::ToolCall {
                tool_id: tool_id.clone(),
                params: params.deep_copy(),
                timestamp: *timestamp,
            },
            Action::Handoff { target_agent, reason, timestamp } => Action::Handoff {
                target_agent: target_agent.clone(),
                reason: reason.clone(),
                timestamp: *timestamp,
            },
            Action::FinalAnswer { answer, timestamp } => Action::FinalAnswer {
                answer: answer.clone(),
                timestamp: *timestamp,
            },
        }
    }
}

/// A human-readable description of an action.
pub open spec fn describe_text(a: ActionView) -> Seq<char> {
    match a {
        ActionView::ToolCall { tool_id, params, .. } => "Call tool '"@ + tool_id
            + "' with params: "@ + json_text(params),
        ActionView::Handoff { target_agent, reason, .. } => "Hand off to agent '"@ + target_agent
            + "': "@ + reason,
        ActionView::FinalAnswer { answer, .. } => "Final answer: "@ + answer,
    }
}

impl Action {
    /// A tool call, stamped now.
    pub fn tool_call(tool_id: String, params: Json) -> (a: Action)
        ensures
            a@ matches ActionView::ToolCall { tool_id: t, params: p, .. } && t == tool_id@ && p
                == params@,
    {
        Action::ToolCall { tool_id, params, timestamp: now_millis() }
    }

    /// A handoff, stamped now.
    pub fn handoff(target_agent: String, reason: String) -> (a: Action)
        ensures
            a@ matches ActionView::Handoff { target_agent: t, reason: r, .. } && t
                == target_agent@ && r == reason@,
    {
        Action::Handoff { target_agent, reason, timestamp: now_millis() }
    }

    /// A final answer, stamped now.
    pub fn final_answer(answer: String) -> (a: Action)
        ensures
            a@ matches ActionView::FinalAnswer { answer: t, .. } && t == answer@,
    {
        Action::FinalAnswer { answer, timestamp: now_millis() }
    }

    /// A human-readable description of this action.
    pub fn describe(&self) -> (s: String)
        ensures
            s@ == describe_text(self@),
    {
        match self {
            Action::ToolCall { tool_id, params, .. } => {
                let mut s = owned("Call tool '");
                push_str(&mut s, tool_id.as_str());
                push_str(&mut s, "' with params: ");
                params.write_text(&mut s);
                s
            },
            Action::Handoff { target_agent, reason, .. } => {
                let mut s = owned("Hand off to agent '");
                push_str(&mut s, target_agent.as_str());
                push_str(&mut s, "': ");
                push_str(&mut s, reason.as_str());
                s
            },
            Action::FinalAnswer { answer, .. } => {
                let mut s = owned("Final answer: ");
                push_str(&mut s, answer.as_str());
                s
            },
        }
    }

    /// Whether this action calls a tool.
    pub fn is_tool_call(&self) -> (b: bool)
        ensures
            b == (self@ is ToolCall),
    {
        match self {
            Action::ToolCall { .. } => true,
            _ => false,
        }
    }
}

/// What an action yielded. The timestamp is in milliseconds since the Unix
/// epoch.
#[derive(Debug)]
pub struct Observation {
    /// The observation's text.
    pub content: String,
    /// When it occurred.
    pub timestamp: i64,
    /// It reports an error.
    pub is_error: bool,
    /// Tracing span.
    pub span_id: Option<SpanId>,
}

/// Mathematical view of an observation.
pub struct ObservationView {
    pub content: Seq<char>,
    pub timestamp: i64,
    pub is_error: bool,
    pub span_id: Option<SpanId>,
}

impl View for Observation {
    type V = ObservationView;

    open spec fn view(&self) -> ObservationView {
        ObservationView {
            content: self.content@,
            timestamp: self.timestamp,
            is_error: self.is_error,
            span_id: self.span_id,
        }
    }
}

impl Clone for Observation {
    fn clone(&self) -> (r: Self)
        ensures
            r@ == self@,
    {
        Observation {
            content: self.content.clone(),
            timestamp: self.timestamp,
            is_error: self.is_error,
            span_id: self.span_id,
        }
    }
}

impl Observation {
    /// A successful observation, stamped now.
    pub fn new(content: String) -> (o: Observation)
        ensures
            o@.content == content@,
            !o@.is_error,
            o@.span_id is None,
    {
        Observation { content, timestamp: now_millis(), is_error: false, span_id: None }
    }

    /// An error observation, stamped now.
    pub fn error(content: String) -> (o: Observation)
        ensures
            o@.content == content@,
            o@.is_error,
            o@.span_id is None,
    {
        Observation { content, timestamp: now_millis(), is_error: true, span_id: None }
    }

    /// Sets the span.
    pub fn with_span_id(self, span_id: SpanId) -> (o: Observation)
        ensures
            o@ == (ObservationView { span_id: Some(span_id), ..self@ }),
    {
        let mut o = self;
        o.span_id = Some(span_id);
        o
    }
}

/// The record of one run of the cycle. Times are milliseconds since the Unix
/// epoch.
#[derive(Debug)]
pub struct ReActTrace {
    /// Thoughts, in order.
    pub thoughts: Vec<Thought>,
    /// Actions, in order.
    pub actions: Vec<Action>,
    /// Observations, in order.
    pub observations: Vec<Observation>,
    /// Start time.
    pub started_at: i64,
    /// Completion time.
    pub completed_at: Option<i64>,
    /// Tokens spent by all thoughts.
    pub total_tokens: TokenUsage,
}

/// Mathematical view of a trace.
pub struct TraceView {
    pub thoughts: Seq<ThoughtView>,
    pub actions: Seq<ActionView>,
    pub observations: Seq<ObservationView>,
    pub started_at: i64,
    pub completed_at: Option<i64>,
    pub total_tokens: TokenUsage,
}

impl View for ReActTrace {
    type V = TraceView;

    open spec fn view(&self) -> TraceView {
        TraceView {
            thoughts: self.thoughts@.map_values(|t: Thought| t@),
            actions: self.actions@.map_values(|a: Action| a@),
            observations: self.observations@.map_values(|o: Observation| o@),
            started_at: self.started_at,
            completed_at: self.completed_at,
            total_tokens: self.total_tokens,
        }
    }
}

/// Token usage after adding `b` to `a`, each count saturating.
pub open spec fn usage_sum(a: TokenUsage, b: TokenUsage) -> TokenUsage {
    TokenUsage {
        prompt_tokens: sat_add(a.prompt_tokens, b.prompt_tokens),
        completion_tokens: sat_add(a.completion_tokens, b.completion_tokens),
        total_tokens: sat_add(a.total_tokens, b.total_tokens),
    }
}

/// The section of iteration `i` in a formatted trace.
pub open spec fn iteration_text(t: TraceView, i: int) -> Seq<char> {
    "=== Iteration "@ + decimal((i + 1) as nat) + " ===\n"@ + "Thought: "@ + t.thoughts[i].content
        + "\n"@ + (if i < t.actions.len() {
        "Action: "@ + describe_text(t.actions[i]) + "\n"@
    } else {
        seq![]
    }) + (if i < t.observations.len() {
        "Observation: "@ + t.observations[i].content + "\n\n"@
    } else {
        seq![]
    })
}

/// The first `n` iterations of a formatted trace.
pub open spec fn iterations_text(t: TraceView, n: int) -> Seq<char>
    decreases n,
{
    if n <= 0 {
        seq![]
    } else {
        iterations_text(t, n - 1) + iteration_text(t, n - 1)
    }
}

/// Number of tool calls among actions.
pub open spec fn tool_calls_in(actions: Seq<ActionView>) -> nat
    decreases actions.len(),
{
    if actions.len() == 0 {
        0
    } else {
        tool_calls_in(actions.drop_last()) + if actions.last() is ToolCall {
            1nat
        } else {
            0nat
        }
    }
}

impl ReActTrace {
    /// An empty trace started now.
    pub fn new() -> (t: ReActTrace)
        ensures
            t@.thoughts.len() == 0,
            t@.actions.len() == 0,
            t@.observations.len() == 0,
            t@.completed_at is None,
            t@.total_tokens == TokenUsage::spec_zero(),
    {
        ReActTrace {
            thoughts: Vec::new(),
            actions: Vec::new(),
            observations: Vec::new(),
            started_at: now_millis(),
            completed_at: None,
            total_tokens: TokenUsage::zero(),
        }
    }

    /// Records a thought and adds its tokens to the total.
    pub fn add_thought(&mut self, thought: Thought)
        ensures
            final(self)@ == (TraceView {
                thoughts: old(self)@.thoughts.push(thought@),
                total_tokens: usage_sum(old(self)@.total_tokens, thought@.tokens),
                ..old(self)@
            }),
    {
        let ghost tv = thought@;
        let ghost before = self@;
        self.total_tokens.add(thought.tokens);
        self.thoughts.push(thought);
        assert(self@.thoughts =~= before.thoughts.push(tv));
    }

    /// Records an action.
    pub fn add_action(&mut self, action: Action)
        ensures
            final(self)@ == (TraceView { actions: old(self)@.actions.push(action@), ..old(self)@ }),
    {
        let ghost av = action@;
        let ghost before = self@;
        self.actions.push(action);
        assert(self@.actions =~= before.actions.push(av));
    }

    /// Records an observation.
    pub fn add_observation(&mut self, observation: Observation)
        ensures
            final(self)@ == (TraceView {
                observations: old(self)@.observations.push(observation@),
                ..old(self)@
            }),
    {
        let ghost ov = observation@;
        let ghost before = self@;
        self.observations.push(observation);
        assert(self@.observations =~= before.observations.push(ov));
    }

    /// Marks the trace completed now.
    pub fn complete(&mut self)
        ensures
            final(self)@ == (TraceView {
                completed_at: Some(final(self)@.completed_at->0),
                ..old(self)@
            }),
    {
        self.completed_at = Some(now_millis());
    }

    /// Number of thought–action–observation cycles: the number of thoughts.
    pub fn iteration_count(&self) -> (n: usize)
        ensures
            n == self@.thoughts.len(),
    {
        self.thoughts.len()
    }

    /// Number of tool calls among the actions.
    pub fn tool_call_count(&self) -> (n: usize)
        ensures
            n == tool_calls_in(self@.actions),
    {
        let ghost av = self@.actions;
        let mut n: usize = 0;
        let mut i: usize = 0;
        while i < self.actions.len()
            invariant
                i <= av.len(),
                av == self@.actions,
                n == tool_calls_in(av.take(i as int)),
                n <= i,
            decreases av.len() - i,
        {
            assert(av.take(i + 1).drop_last() =~= av.take(i as int));
            assert(av.take(i + 1).last() == self.actions@[i as int]@);
            if self.actions[i].is_tool_call() {
                n = n + 1;
            }
            i = i + 1;
        }
        assert(av.take(av.len() as int) =~= av);
        n
    }

    /// Appends the section of iteration `i`.
    fn push_iteration(&self, out: &mut String, i: usize)
        requires
            i < self@.thoughts.len(),
        ensures
            final(out)@ == old(out)@ + iteration_text(self@, i as int),
    {
        let ghost t = self@;
        let n = self.thoughts.len();
        assert(i < n);
        let mut head = owned("=== Iteration ");
        push_decimal(&mut head, i + 1);
        push_str(&mut head, " ===\n");
        push_str(&mut head, "Thought: ");
        push_str(&mut head, self.thoughts[i].content.as_str());
        push_str(&mut head, "\n");
        assert(head@ =~= "=== Iteration "@ + decimal((i + 1) as nat) + " ===\n"@ + "Thought: "@
            + t.thoughts[i as int].content + "\n"@);
        let mut act = String::new();
        if i < self.actions.len() {
            push_str(&mut act, "Action: ");
            let d = self.actions[i].describe();
            push_str(&mut act, d.as_str());
            push_str(&mut act, "\n");
        }
        let mut obs = String::new();
        if i < self.observations.len() {
            push_str(&mut obs, "Observation: ");
            push_str(&mut obs, self.observations[i].content.as_str());
            push_str(&mut obs, "\n\n");
        }
        push_str(out, head.as_str());
        push_str(out, act.as_str());
        push_str(out, obs.as_str());
        assert(out@ =~= old(out)@ + iteration_text(t, i as int));
    }

    /// The trace as text, one section per iteration.
    pub fn format(&self) -> (s: String)
        ensures
            s@ == iterations_text(self@, self@.thoughts.len() as int),
    {
        let ghost t = self@;
        let mut out = String::new();
        let mut i: usize = 0;
        while i < self.thoughts.len()
            invariant
                i <= t.thoughts.len(),
                t == self@,
                out@ == iterations_text(t, i as int),
            decreases t.thoughts.len() - i,
        {
            self.push_iteration(&mut out, i);
            i = i + 1;
        }
        out
    }
}

} // verus!
