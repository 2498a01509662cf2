//! The result of running a pattern.
use vstd::prelude::*;
use crate::json::{member_views, set_entry, set_member, Json, JsonView};
use crate::text::str_eq;

verus! {

/// What one agent contributed. The time is in milliseconds.
#[derive(Debug)]
pub struct AgentOutput {
    /// Agent name.
    pub agent_name: String,
    /// The agent's answer.
    pub content: String,
    /// Number of reasoning loops executed.
    pub loops_executed: usize,
    /// Execution time.
    pub execution_time_ms: u64,
}

/// Mathematical view of an agent output.
pub struct OutputView {
    pub agent_name: Seq<char>,
    pub content: Seq<char>,
    pub loops_executed: usize,
    pub execution_time_ms: u64,
}

impl View for AgentOutput {
    type V = OutputView;

    open spec fn view(&self) -> OutputView {
        OutputView {
            agent_name: self.agent_name@,
            content: self.content@,
            loops_executed: self.loops_executed,
            execution_time_ms: self.execution_time_ms,
        }
    }
}

impl Clone for AgentOutput {
    fn clone(&self) -> (r: Self)
        ensures
            r@ == self@,
    {
        AgentOutput {
            agent_name: self.agent_name.clone(),
            content: self.content.clone(),
            loops_executed: self.loops_executed,
            execution_time_ms: self.execution_time_ms,
        }
    }
}

/// Metadata of a pattern run. Extra entries are keyed by name, each name once.
#[derive(Debug)]
pub struct OrchestratorMetadata {
    /// Pattern name.
    pub pattern_type: String,
    /// Total execution time in milliseconds.
    pub total_time_ms: u64,
    /// Number of agents that contributed.
    pub agent_count: usize,
    /// Number of handoffs performed.
    pub handoff_count: usize,
    /// Pattern-specific data.
    pub extra: Vec<(String, Json)>,
}

/// The result of a pattern run. Agent outputs are keyed by agent name, each
/// name once, in the order the names first arrived.
#[derive(Debug)]
pub struct OrchestratorResult {
    /// Final answer.
    pub content: String,
    /// Individual agent outputs.
    pub agent_outputs: Vec<AgentOutput>,
    /// Metadata.
    pub metadata: OrchestratorMetadata,
}

/// Mathematical view of a pattern result.
pub struct ResultView {
    pub content: Seq<char>,
    pub agent_outputs: Seq<OutputView>,
    pub pattern_type: Seq<char>,
    pub total_time_ms: u64,
    pub agent_count: usize,
    pub handoff_count: usize,
    pub extra: Seq<(Seq<char>, JsonView)>,
}

/// Views of agent outputs.
pub open spec fn output_views(v: Seq<AgentOutput>) -> Seq<OutputView> {
    v.map_values(|o: AgentOutput| o@)
}

impl View for OrchestratorResult {
    type V = ResultView;

    open spec fn view(&self) -> ResultView {
        ResultView {
            content: self.content@,
            agent_outputs: output_views(self.agent_outputs@),
            pattern_type: self.metadata.pattern_type@,
            total_time_ms: self.metadata.total_time_ms,
            agent_count: self.metadata.agent_count,
            handoff_count: self.metadata.handoff_count,
            extra: member_views(self.metadata.extra@),
        }
    }
}

/// Index of the first output named `name`, or the number of outputs.
pub open spec fn output_index(os: Seq<OutputView>, name: Seq<char>) -> int
    decreases os.len(),
{
    if os.len() == 0 {
        0
    } else if os[0].agent_name == name {
        0
    } else {
        1 + output_index(os.drop_first(), name)
    }
}

/// The outputs after recording `o`: an output of the same agent is replaced
/// in place, otherwise `o` is added at the end.
pub open spec fn record_output(os: Seq<OutputView>, o: OutputView) -> Seq<OutputView> {
    let i = output_index(os, o.agent_name);
    if i < os.len() {
        os.update(i, o)
    } else {
        os.push(o)
    }
}

proof fn lemma_output_index(os: Seq<OutputView>, name: Seq<char>)
    ensures
        0 <= output_index(os, name) <= os.len(),
        output_index(os, name) < os.len() ==> os[output_index(os, name)].agent_name == name,
        forall|j: int| 0 <= j < output_index(os, name) ==> os[j].agent_name != name,
    decreases os.len(),
{
    if os.len() > 0 && os[0].agent_name != name {
        lemma_output_index(os.drop_first(), name);
        assert forall|j: int| 0 <= j < output_index(os, name) implies os[j].agent_name != name by {
            if j > 0 {
                assert(os[j] == os.drop_first()[j - 1]);
            }
        }
    }
}

/// An index is the first with a given name when all names before it differ.
proof fn lemma_output_index_at(os: Seq<OutputView>, name: Seq<char>, i: int)
    requires
        0 <= i <= os.len(),
        i < os.len() ==> os[i].agent_name == name,
        forall|j: int| 0 <= j < i ==> os[j].agent_name != name,
    ensures
        output_index(os, name) == i,
    decreases os.len(),
{
    if os.len() > 0 && i > 0 {
        assert forall|j: int| 0 <= j < i - 1 implies os.drop_first()[j].agent_name != name by {
            assert(os.drop_first()[j] == os[j + 1]);
        }
        lemma_output_index_at(os.drop_first(), name, i - 1);
    }
}

/// Position of the first output of agent `name`, or the number of outputs.
fn first_output_named(v: &Vec<AgentOutput>, name: &str) -> (i: usize)
    ensures
        i <= v@.len(),
        i < v@.len() ==> v@[i as int].agent_name@ == name@,
        forall|j: int| 0 <= j < i ==> v@[j].agent_name@ != name@,
{
    let mut i: usize = 0;
    while i < v.len()
        invariant
            i <= v@.len(),
            forall|j: int| 0 <= j < i ==> v@[j].agent_name@ != name@,
        decreases v@.len() - i,
    {
        if str_eq(v[i].agent_name.as_str(), name) {
            return i;
        }
        i = i + 1;
    }
    i
}

impl OrchestratorResult {
    /// A result with this content and pattern name, no outputs, no time, no
    /// handoffs and no extra data.
    pub fn new(content: String, pattern_type: String) -> (r: OrchestratorResult)
        ensures
            r@ == (ResultView {
                content: content@,
                agent_outputs: seq![],
                pattern_type: pattern_type@,
                total_time_ms: 0,
                agent_count: 0,
                handoff_count: 0,
                extra: seq![],
            }),
    {
        let r = OrchestratorResult {
            content,
            agent_outputs: Vec::new(),
            metadata: OrchestratorMetadata {
                pattern_type,
                total_time_ms: 0,
                agent_count: 0,
                handoff_count: 0,
                extra: Vec::new(),
            },
        };
        assert(r@.agent_outputs =~= Seq::<OutputView>::empty());
        assert(r@.extra =~= Seq::<(Seq<char>, JsonView)>::empty());
        r
    }

    /// Records an agent's output (replacing an earlier output of the same
    /// agent) and counts the agents.
    pub fn with_agent_output(self, output: AgentOutput) -> (r: OrchestratorResult)
        ensures
            r@ == (ResultView {
                agent_outputs: record_output(self@.agent_outputs, output@),
                agent_count: record_output(self@.agent_outputs, output@).len() as usize,
                ..self@
            }),
    {
        let mut r = self;
        let ghost os = r@.agent_outputs;
        let ghost ov = output@;
        proof {
            lemma_output_index(os, ov.agent_name);
        }
        let i = first_output_named(&r.agent_outputs, output.agent_name.as_str());
        proof {
            lemma_output_index_at(os, ov.agent_name, i as int);
        }
        if i < r.agent_outputs.len() {
            r.agent_outputs.set(i, output);
            assert(output_views(r.agent_outputs@) =~= os.update(i as int, ov));
        } else {
            r.agent_outputs.push(output);
            assert(output_views(r.agent_outputs@) =~= os.push(ov));
        }
        r.metadata.agent_count = r.agent_outputs.len();
        r
    }

    /// Sets the total execution time.
    pub fn with_time(self, time_ms: u64) -> (r: OrchestratorResult)
        ensures
            r@ == (ResultView { total_time_ms: time_ms, ..self@ }),
    {
        let mut r = self;
        r.metadata.total_time_ms = time_ms;
        r
    }

    /// Sets the number of handoffs.
    pub fn with_handoffs(self, count: usize) -> (r: OrchestratorResult)
        ensures
            r@ == (ResultView { handoff_count: count, ..self@ }),
    {
        let mut r = self;
        r.metadata.handoff_count = count;
        r
    }

    /// Sets an extra entry, replacing an earlier one with the same key.
    pub fn with_extra(self, key: String, value: Json) -> (r: OrchestratorResult)
        ensures
            r@ == (ResultView { extra: set_entry(self@.extra, key@, value@), ..self@ }),
    {
        let mut r = self;
        set_member(&mut r.metadata.extra, key, value);
        r
    }
}

} // verus!
