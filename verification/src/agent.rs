//! The decisions of an agent's reasoning loop: reading the action out of a
//! thought, the course of a run from thought to thought, and the checks of
//! agent construction. The caller talks to the model and runs the tools.
use vstd::prelude::*;
use vstd::utf8::*;
use crate::error::Error;
use crate::json::{json_str, member_views, push_member, Json, JsonView};
use crate::openrouter::{plain, Message, MessageView, Role};
use crate::react::{Action, ActionView, Observation, ReActTrace, Thought, TraceView};
use crate::text::{
    byte_len, contains, find, occurs_at, owned, push_str, slice_range, str_contains,
    string_from_chars, to_chars, to_lowercase, lowercase, trim, trim_chars,
};
use crate::types::AgentId;

verus! {

/// Position of the first occurrence of `p` in `s` (meaningful when it occurs).
pub open spec fn first_at(s: Seq<char>, p: Seq<char>) -> int {
    choose|i: int| occurs_at(s, p, i) && forall|j: int| 0 <= j < i ==> !occurs_at(s, p, j)
}

/// Byte position, in the lower-cased thought, just past the first
/// `final answer:`, or else past the first `answer:`; none when neither occurs.
pub open spec fn answer_start(content: Seq<char>) -> Option<int> {
    let lower = lowercase(content);
    if contains(lower, "final answer:"@) {
        Some((byte_len(lower.take(first_at(lower, "final answer:"@))) + byte_len("final answer:"@)) as int)
    } else if contains(lower, "answer:"@) {
        Some((byte_len(lower.take(first_at(lower, "answer:"@))) + byte_len("answer:"@)) as int)
    } else {
        None
    }
}

/// The answer can be cut out of the thought at that byte position: it falls
/// on a char boundary of the thought itself.
pub open spec fn answer_sliceable(content: Seq<char>) -> bool {
    match answer_start(content) {
        Some(b) => b <= encode_utf8(content).len() && is_char_boundary(encode_utf8(content), b),
        None => true,
    }
}

/// The thought's text from byte `b` on, trimmed.
pub open spec fn answer_after(content: Seq<char>, b: int) -> Seq<char> {
    trim(decode_utf8(encode_utf8(content).subrange(b, encode_utf8(content).len() as int)))
}

/// Parameters of the tool call that a bare `action:` asks for.
pub open spec fn probe_params() -> JsonView {
    JsonView::Object(seq![("message"@, JsonView::Str("test"@))])
}

/// `a` is the action that a thought with `content` leads to, when the agent's
/// first tool (if any) is `first_tool`.
pub open spec fn decided(content: Seq<char>, first_tool: Option<Seq<char>>, a: ActionView) -> bool {
    match answer_start(content) {
        Some(b) => a matches ActionView::FinalAnswer { answer, .. } && answer == answer_after(
            content,
            b,
        ),
        None => if contains(lowercase(content), "action:"@) && first_tool is Some {
            a matches ActionView::ToolCall { tool_id, params, .. } && tool_id == first_tool->0
                && params == probe_params()
        } else {
            a matches ActionView::FinalAnswer { answer, .. } && answer == content
        },
    }
}

/// What a thought leads to: a thought that says `answer:` (in any case) is a
/// final answer, the trimmed text after its first `final answer:` when it has
/// one; a thought without it that says `action:` calls the agent's first
/// tool, when it has one, with the probe parameters; any other thought is
/// itself the final answer.
pub proof fn lemma_decided(content: Seq<char>, first_tool: Option<Seq<char>>, a: ActionView)
    requires
        decided(content, first_tool, a),
    ensures
        ({
            let lower = lowercase(content);
            &&& contains(lower, "answer:"@) ==> a is FinalAnswer
            &&& contains(lower, "final answer:"@) ==> (a matches ActionView::FinalAnswer { answer, .. }
                && answer == answer_after(
                content,
                (byte_len(lower.take(first_at(lower, "final answer:"@))) + byte_len("final answer:"@)) as int,
            ))
            &&& !contains(lower, "answer:"@) && contains(lower, "action:"@) && first_tool is Some ==> (
            a matches ActionView::ToolCall { tool_id, params, .. } && tool_id == first_tool->0
                && params == JsonView::Object(seq![("message"@, JsonView::Str("test"@))]))
            &&& !contains(lower, "answer:"@) && !(contains(lower, "action:"@) && first_tool is Some) ==> (
            a matches ActionView::FinalAnswer { answer, .. } && answer == content)
        }),
{
    let lower = lowercase(content);
    if contains(lower, "final answer:"@) {
        lemma_final_answer_says_answer(lower);
    }
}

/// A text that says `final answer:` says `answer:`.
proof fn lemma_final_answer_says_answer(lower: Seq<char>)
    requires
        contains(lower, "final answer:"@),
    ensures
        contains(lower, "answer:"@),
{
    reveal_strlit("final answer:");
    reveal_strlit("answer:");
    let i = choose|i: int| occurs_at(lower, "final answer:"@, i);
    let f = "final answer:"@;
    let w = "answer:"@;
    assert(lower.subrange(i, i + 13) == f);
    assert(lower.subrange(i + 6, i + 13) =~= w) by {
        assert forall|k: int| 0 <= k < 7 implies lower.subrange(i + 6, i + 13)[k] == w[k] by {
            assert(lower.subrange(i, i + 13)[k + 6] == lower[i + 6 + k]);
            assert(f[k + 6] == w[k]);
        }
    }
    assert(occurs_at(lower, w, i + 6));
}

/// The view of an optional string.
pub open spec fn opt_view(o: Option<&str>) -> Option<Seq<char>> {
    match o {
        Some(t) => Some(t@),
        None => None,
    }
}

/// Byte position just past the first occurrence of `pat` in `lower`, if any.
fn cut_after(lower: &Vec<char>, pat: &str) -> (r: Option<usize>)
    ensures
        match r {
            Some(b) => contains(lower@, pat@) && b == byte_len(lower@.take(first_at(lower@, pat@)))
                + byte_len(pat@),
            None => !contains(lower@, pat@) || byte_len(lower@.take(first_at(lower@, pat@)))
                + byte_len(pat@) > usize::MAX,
        },
{
    let p = to_chars(pat);
    match find(lower.as_slice(), p.as_slice()) {
        None => None,
        Some(i) => {
            let ghost k = first_at(lower@, pat@);
            assert(occurs_at(lower@, pat@, k) && k == i as int) by {
                if k != i as int {
                    assert(occurs_at(lower@, pat@, i as int));
                }
            }
            let prefix = string_from_chars(slice_range(lower.as_slice(), 0, i).as_slice());
            assert(prefix@ =~= lower@.take(i as int));
            let b = prefix.as_str().as_bytes().len();
            let pl = pat.as_bytes().len();
            b.checked_add(pl)
        },
    }
}

/// The action a thought leads to: the text after `final answer:` (or else
/// `answer:`) in the thought, trimmed; else, when the thought says
/// `action:` and the agent has a tool, a call of its first tool; else the
/// whole thought as the final answer.
pub fn decide_action(content: &str, first_tool: Option<&str>) -> (a: Action)
    requires
        answer_sliceable(content@),
    ensures
        decided(content@, opt_view(first_tool), a@),
{
    match answer_cut(content) {
        Some(cut) => Action::final_answer(answer_tail(content, cut)),
        None => {
            let lower = to_lowercase(content);
            let l = to_chars(lower.as_str());
            match first_tool {
                Some(tool) => {
                    if str_contains(l.as_slice(), "action:") {
                        let mut m: Vec<(String, Json)> = Vec::new();
                        assert(member_views(m@) =~= Seq::<(Seq<char>, JsonView)>::empty());
                        push_member(&mut m, "message", json_str("test"));
                        assert(member_views(m@) =~= seq![("message"@, JsonView::Str("test"@))]);
                        Action::tool_call(owned(tool), Json::Object(m))
                    } else {
                        Action::final_answer(owned(content))
                    }
                },
                None => Action::final_answer(owned(content)),
            }
        },
    }
}

/// The thought's text from byte `cut` on, trimmed.
fn answer_tail(content: &str, cut: usize) -> (r: String)
    requires
        cut <= encode_utf8(content@).len(),
        is_char_boundary(encode_utf8(content@), cut as int),
    ensures
        r@ == answer_after(content@, cut as int),
{
    proof {
        broadcast use vstd::string::group_string_axioms;
    }
    let (_, tail) = content.split_at(cut);
    proof {
        vstd::utf8::encode_utf8_decode_utf8(tail@);
    }
    let t = to_chars(tail);
    string_from_chars(trim_chars(t.as_slice()).as_slice())
}

/// Where the answer starts in the thought, when a marker occurs and the
/// position is a char boundary; the position is then `answer_start`.
fn answer_cut(content: &str) -> (r: Option<usize>)
    ensures
        match r {
            Some(b) => answer_start(content@) == Some(b as int) && answer_sliceable(content@),
            None => answer_start(content@) is None || !answer_sliceable(content@),
        },
{
    let lower = to_lowercase(content);
    let l = to_chars(lower.as_str());
    let n = content.as_bytes().len();
    proof {
        broadcast use vstd::string::group_string_axioms;
        reveal_strlit("final answer:");
        reveal_strlit("answer:");
        assert(n == encode_utf8(content@).len());
    }
    let cut = if contains_final(&l) {
        cut_after(&l, "final answer:")
    } else if str_contains(l.as_slice(), "answer:") {
        cut_after(&l, "answer:")
    } else {
        return None;
    };
    match cut {
        None => None,
        Some(b) => {
            if b <= n && content.is_char_boundary(b) {
                Some(b)
            } else {
                None
            }
        },
    }
}

fn contains_final(l: &Vec<char>) -> (b: bool)
    ensures
        b == contains(l@, "final answer:"@),
{
    str_contains(l.as_slice(), "final answer:")
}

/// The action a thought leads to, or `None` for a thought whose answer
/// position does not fall on a char boundary of the thought (there the
/// answer cannot be cut out).
pub fn try_decide_action(content: &str, first_tool: Option<&str>) -> (a: Option<Action>)
    ensures
        match a {
            Some(x) => answer_sliceable(content@) && decided(content@, opt_view(first_tool), x@),
            None => !answer_sliceable(content@),
        },
{
    match answer_cut(content) {
        Some(_) => Some(decide_action(content, first_tool)),
        None => {
            if answer_marked(content) {
                None
            } else {
                Some(decide_action(content, first_tool))
            }
        },
    }
}

/// Whether the thought holds an answer marker.
fn answer_marked(content: &str) -> (b: bool)
    ensures
        b == answer_start(content@) is Some,
{
    let lower = to_lowercase(content);
    let l = to_chars(lower.as_str());
    contains_final(&l) || str_contains(l.as_slice(), "answer:")
}

/// How a reasoning step ends.
#[derive(Debug)]
pub enum StepOutcome {
    /// Call this tool, then report what it yielded.
    CallTool { tool_id: String, params: Json },
    /// The run ends with this answer.
    Answer(String),
    /// The run ends with this error.
    Fail(Error),
}

/// The message of the error that ends a run on a handoff.
pub open spec fn handoff_message(target: Seq<char>, reason: Seq<char>) -> Seq<char> {
    "Handoff to agent "@ + target + " not yet implemented: "@ + reason
}

/// Progress of one run of the reasoning loop.
#[derive(Debug)]
pub struct ReactRun {
    max_loops: u32,
    iterations: u32,
    messages: Vec<Message>,
    trace: ReActTrace,
    last_thought: String,
    awaiting_observation: bool,
    finished: bool,
}

/// Mathematical view of a run of the loop.
pub struct RunState {
    pub max_loops: u32,
    pub iterations: u32,
    pub messages: Seq<MessageView>,
    pub trace: TraceView,
    pub last_thought: Seq<char>,
    pub awaiting_observation: bool,
    pub finished: bool,
}

impl View for ReactRun {
    type V = RunState;

    closed spec fn view(&self) -> RunState {
        RunState {
            max_loops: self.max_loops,
            iterations: self.iterations,
            messages: self.messages@.map_values(|m: Message| m@),
            trace: self.trace@,
            last_thought: self.last_thought@,
            awaiting_observation: self.awaiting_observation,
            finished: self.finished,
        }
    }
}

/// A run never thinks more than its loop budget allows, and every thought
/// of the trace was followed by an action.
pub open spec fn run_wf(s: RunState) -> bool {
    &&& s.iterations <= s.max_loops
    &&& s.trace.thoughts.len() == s.iterations
    &&& s.trace.actions.len() == s.iterations
    &&& s.awaiting_observation ==> !s.finished
}

/// The run expects a new thought from the model.
pub open spec fn wants_thought_spec(s: RunState) -> bool {
    !s.finished && !s.awaiting_observation && s.iterations < s.max_loops
}

impl ReactRun {
    /// A run on `input` under `system_prompt`, allowed `max_loops` thoughts.
    pub fn start(system_prompt: &str, input: &str, max_loops: u32) -> (r: ReactRun)
        ensures
            run_wf(r@),
            r@.max_loops == max_loops,
            r@.iterations == 0,
            r@.messages == seq![plain(Role::System, system_prompt@), plain(Role::User, input@)],
            r@.trace.thoughts.len() == 0,
            r@.trace.observations.len() == 0,
            r@.trace.completed_at is None,
            !r@.awaiting_observation,
            !r@.finished,
    {
        let mut messages: Vec<Message> = Vec::new();
        messages.push(Message::system(owned(system_prompt)));
        messages.push(Message::user(owned(input)));
        let r = ReactRun {
            max_loops,
            iterations: 0,
            messages,
            trace: ReActTrace::new(),
            last_thought: String::new(),
            awaiting_observation: false,
            finished: false,
        };
        assert(r@.messages =~= seq![plain(Role::System, system_prompt@), plain(Role::User, input@)]);
        r
    }

    /// The run expects a new thought from the model.
    pub fn wants_thought(&self) -> (b: bool)
        ensures
            b == wants_thought_spec(self@),
    {
        !self.finished && !self.awaiting_observation && self.iterations < self.max_loops
    }

    /// The conversation to show the model.
    pub fn messages(&self) -> (m: &Vec<Message>)
        ensures
            m@.map_values(|x: Message| x@) == self@.messages,
    {
        &self.messages
    }

    /// The trace so far.
    pub fn trace(&self) -> (t: &ReActTrace)
        ensures
            t@ == self@.trace,
    {
        &self.trace
    }

    /// Ends a run that used up its thoughts without an answer.
    pub fn give_up(&mut self) -> (e: Error)
        requires
            run_wf(old(self)@),
            !old(self)@.finished,
            !old(self)@.awaiting_observation,
            old(self)@.iterations >= old(self)@.max_loops,
        ensures
            run_wf(final(self)@),
            final(self)@.finished,
            e == Error::MaxLoopsExceeded(old(self)@.max_loops),
            final(self)@.trace.completed_at is Some,
            final(self)@.trace.thoughts == old(self)@.trace.thoughts,
            final(self)@.trace.actions == old(self)@.trace.actions,
    {
        self.trace.complete();
        self.finished = true;
        Error::MaxLoopsExceeded(self.max_loops)
    }

    /// Records a thought and the action decided from it, and says how the
    /// step ends: a tool to call (the run then awaits its observation), the
    /// final answer, or an error for a handoff.
    pub fn record_step(&mut self, thought: Thought, action: Action) -> (o: StepOutcome)
        requires
            run_wf(old(self)@),
            wants_thought_spec(old(self)@),
        ensures
            run_wf(final(self)@),
            final(self)@.iterations == old(self)@.iterations + 1,
            final(self)@.trace.thoughts == old(self)@.trace.thoughts.push(thought@),
            final(self)@.trace.actions == old(self)@.trace.actions.push(action@),
            final(self)@.trace.observations == old(self)@.trace.observations,
            final(self)@.messages == old(self)@.messages,
            final(self)@.last_thought == thought@.content,
            match action@ {
                ActionView::ToolCall { tool_id, params, .. } => o matches StepOutcome::CallTool {
                    tool_id: t,
                    params: p,
                } && t@ == tool_id && p@ == params && final(self)@.awaiting_observation
                    && !final(self)@.finished,
                ActionView::Handoff { target_agent, reason, .. } => o matches StepOutcome::Fail(
                    Error::Handoff(m),
                ) && m@ == handoff_message(target_agent, reason) && final(self)@.finished,
                ActionView::FinalAnswer { answer, .. } => o matches StepOutcome::Answer(a) && a@
                    == answer && final(self)@.finished && final(self)@.trace.completed_at is Some,
            },
    {
        self.last_thought = thought.content.clone();
        self.trace.add_thought(thought);
        let copy = action.clone();
        self.trace.add_action(copy);
        self.iterations = self.iterations + 1;
        match action {
            Action::ToolCall { tool_id, params, .. } => {
                self.awaiting_observation = true;
                StepOutcome::CallTool { tool_id, params }
            },
            Action::Handoff { target_agent, reason, .. } => {
                self.finished = true;
                let mut m = owned("Handoff to agent ");
                push_str(&mut m, target_agent.as_str());
                push_str(&mut m, " not yet implemented: ");
                push_str(&mut m, reason.as_str());
                StepOutcome::Fail(Error::Handoff(m))
            },
            Action::FinalAnswer { answer, .. } => {
                self.trace.complete();
                self.finished = true;
                StepOutcome::Answer(answer)
            },
        }
    }

    /// Records what the called tool yielded: the observation joins the trace,
    /// and the conversation goes on with the thought and the observation.
    pub fn record_observation(&mut self, observation: Observation)
        requires
            run_wf(old(self)@),
            old(self)@.awaiting_observation,
        ensures
            run_wf(final(self)@),
            !final(self)@.awaiting_observation,
            !final(self)@.finished,
            final(self)@.iterations == old(self)@.iterations,
            final(self)@.trace.observations == old(self)@.trace.observations.push(observation@),
            final(self)@.trace.thoughts == old(self)@.trace.thoughts,
            final(self)@.trace.actions == old(self)@.trace.actions,
            final(self)@.messages == old(self)@.messages.push(
                plain(Role::Assistant, old(self)@.last_thought),
            ).push(plain(Role::User, observation@.content)),
    {
        let ghost before = self@.messages;
        let ghost ov = observation@;
        let content = observation.content.clone();
        self.trace.add_observation(observation);
        self.messages.push(Message::assistant(self.last_thought.clone()));
        self.messages.push(Message::user(content));
        assert(self@.messages =~= before.push(plain(Role::Assistant, old(self)@.last_thought)).push(
            plain(Role::User, ov.content),
        ));
        self.awaiting_observation = false;
    }

    /// The trace of the run.
    pub fn into_trace(self) -> (t: ReActTrace)
        ensures
            t@ == self@.trace,
    {
        self.trace
    }
}

/// A run may take at most its budget of thoughts: in a well-formed state,
/// the number of thoughts and of actions equals the number of iterations,
/// which never exceeds `max_loops`, and a run that awaits an observation is
/// not finished.
pub proof fn lemma_run_budget(s: RunState)
    requires
        run_wf(s),
    ensures
        s.trace.thoughts.len() <= s.max_loops,
        s.trace.actions.len() == s.trace.thoughts.len(),
        !wants_thought_spec(s) && !s.finished && !s.awaiting_observation ==> s.iterations
            == s.max_loops,
{
}

/// What an agent run produced.
#[derive(Debug)]
pub struct AgentOutput {
    /// Agent that produced it.
    pub agent_id: AgentId,
    /// The answer.
    pub content: String,
    /// The run's trace.
    pub trace: ReActTrace,
    /// Extra data.
    pub metadata: Json,
}

impl AgentOutput {
    /// An output with empty metadata (`{}`).
    pub fn new(agent_id: AgentId, content: String, trace: ReActTrace) -> (o: AgentOutput)
        ensures
            o.agent_id == agent_id,
            o.content@ == content@,
            o.trace@ == trace@,
            o.metadata@ == JsonView::Object(seq![]),
    {
        let m: Vec<(String, Json)> = Vec::new();
        assert(member_views(m@) =~= Seq::<(Seq<char>, JsonView)>::empty());
        AgentOutput { agent_id, content, trace, metadata: Json::Object(m) }
    }

    /// Sets the metadata.
    pub fn with_metadata(self, metadata: Json) -> (o: AgentOutput)
        ensures
            o.agent_id == self.agent_id,
            o.content@ == self.content@,
            o.trace@ == self.trace@,
            o.metadata@ == metadata@,
    {
        let mut o = self;
        o.metadata = metadata;
        o
    }
}

/// The settings an agent cannot do without: its name is required, the system
/// prompt defaults to empty, and the model defaults to `default_model`.
pub fn check_required(
    name: Option<String>,
    system_prompt: Option<String>,
    model: Option<String>,
    default_model: &str,
) -> (r:
    Result<(String, String, String), Error>)
    ensures
        match name {
            None => r matches Err(Error::Config(m)) && m@ == "Agent name is required"@,
            Some(n) => r matches Ok(t) && t.0@ == n@ && t.1@ == match system_prompt {
                Some(p) => p@,
                None => Seq::<char>::empty(),
            } && t.2@ == match model {
                Some(m) => m@,
                None => default_model@,
            },
        },
{
    let name = match name {
        Some(n) => n,
        None => return Err(Error::Config(owned("Agent name is required"))),
    };
    let system_prompt = match system_prompt {
        Some(p) => p,
        None => String::new(),
    };
    let model = match model {
        Some(m) => m,
        None => owned(default_model),
    };
    Ok((name, system_prompt, model))
}

/// The observation of a tool's output: its content when it succeeded,
/// otherwise its error message (`Unknown error` when it gave none).
pub fn observation_of(success: bool, content: &str, error: Option<&str>) -> (o: Observation)
    ensures
        success ==> o@.content == content@ && !o@.is_error,
        !success ==> o@.is_error && o@.content == match error {
            Some(e) => e@,
            None => "Unknown error"@,
        },
        o@.span_id is None,
{
    if success {
        Observation::new(owned(content))
    } else {
        match error {
            Some(e) => Observation::error(owned(e)),
            None => Observation::error(owned("Unknown error")),
        }
    }
}

/// The error for a tool the agent does not have.
pub fn tool_not_found(tool_id: &str) -> (e: Error)
    ensures
        e matches Error::ToolExecution { tool, message } && tool@ == tool_id@ && message@
            == "Tool not found"@,
{
    Error::ToolExecution { tool: owned(tool_id), message: owned("Tool not found") }
}

} // verus!
