//! The sequential pattern: agents run in order, each one's answer being the
//! next one's input; the last answer is the result.
use crate::error::Error;
use crate::orchestrator::pattern::{record_output, AgentOutput, OrchestratorResult, OutputView, ResultView};
use crate::text::owned;
use vstd::prelude::*;

verus! {

/// A chain in progress: the input the next agent gets, the result so far,
/// and the error of the agent that failed, once one has.
pub struct SequentialChain {
    current: String,
    result: OrchestratorResult,
    failure: Option<Error>,
}

/// The state of a chain as plain values.
pub struct ChainView {
    pub current: Seq<char>,
    pub result: ResultView,
    pub failure: Option<Error>,
}

/// The chain after recording the output `o`: its content is the next input,
/// and it joins the result.
pub open spec fn chain_step(v: ChainView, o: OutputView) -> ChainView {
    ChainView {
        current: o.content,
        result: ResultView {
            agent_outputs: record_output(v.result.agent_outputs, o),
            agent_count: record_output(v.result.agent_outputs, o).len() as usize,
            ..v.result
        },
        failure: v.failure,
    }
}

/// The chain after recording the outputs `outs` in order, from `v`.
pub open spec fn chain_run(v: ChainView, outs: Seq<OutputView>) -> ChainView
    decreases outs.len(),
{
    if outs.len() == 0 {
        v
    } else {
        chain_step(chain_run(v, outs.drop_last()), outs.last())
    }
}

/// Agents run in order, each on the answer of the one before: after the
/// outputs `outs` are recorded, the next input is the last of their contents
/// (the first input when there is none), and the result keeps the pattern's
/// name and its empty content until the chain is finished.
pub proof fn lemma_chain_run(v: ChainView, outs: Seq<OutputView>)
    ensures
        chain_run(v, outs).current == if outs.len() == 0 {
            v.current
        } else {
            outs.last().content
        },
        chain_run(v, outs).result.pattern_type == v.result.pattern_type,
        chain_run(v, outs).result.content == v.result.content,
    decreases outs.len(),
{
    if outs.len() > 0 {
        lemma_chain_run(v, outs.drop_last());
    }
}

/// The chain after the agent that just ran failed with `e`.
pub open spec fn chain_fail(v: ChainView, e: Error) -> ChainView {
    ChainView { failure: Some(e), ..v }
}

/// The chain after the agents run in order with the outcomes `outs`, each
/// agent running only while none before it has failed (an outcome that
/// comes after a failure is that of an agent that never runs).
pub open spec fn chain_drive(v: ChainView, outs: Seq<Result<OutputView, Error>>) -> ChainView
    decreases outs.len(),
{
    if outs.len() == 0 {
        v
    } else {
        let before = chain_drive(v, outs.drop_last());
        if before.failure is Some {
            before
        } else {
            match outs.last() {
                Ok(o) => chain_step(before, o),
                Err(e) => chain_fail(before, e),
            }
        }
    }
}

/// The outcomes before the first failure are all successes.
pub open spec fn all_ok(outs: Seq<Result<OutputView, Error>>) -> bool {
    forall|i: int| 0 <= i < outs.len() ==> #[trigger] outs[i] is Ok
}

/// The outputs of outcomes that are all successes.
pub open spec fn oks(outs: Seq<Result<OutputView, Error>>) -> Seq<OutputView> {
    outs.map_values(|r: Result<OutputView, Error>| r->Ok_0)
}

/// Nothing runs after the first failure: when the agents before the one at
/// `k` succeed and that one fails with `e`, the chain stops there with `e`,
/// having gathered exactly the outputs before it, whatever the later agents
/// would have answered. When every agent succeeds, the chain has gathered
/// every output and has not stopped.
pub proof fn lemma_chain_stops_at_first_failure(v: ChainView, outs: Seq<Result<OutputView, Error>>, k: int)
    requires
        v.failure is None,
        0 <= k < outs.len(),
        all_ok(outs.take(k)),
        outs[k] is Err,
    ensures
        chain_drive(v, outs) == chain_fail(chain_run(v, oks(outs.take(k))), outs[k]->Err_0),
    decreases outs.len(),
{
    if k == outs.len() - 1 {
        assert(outs.drop_last() =~= outs.take(k));
        lemma_chain_all_ok(v, outs.take(k));
    } else {
        assert(outs.drop_last().take(k) =~= outs.take(k));
        lemma_chain_stops_at_first_failure(v, outs.drop_last(), k);
    }
}

/// When every agent succeeds, the chain records every output in order and
/// does not stop.
pub proof fn lemma_chain_all_ok(v: ChainView, outs: Seq<Result<OutputView, Error>>)
    requires
        v.failure is None,
        all_ok(outs),
    ensures
        chain_drive(v, outs) == chain_run(v, oks(outs)),
        chain_drive(v, outs).failure is None,
    decreases outs.len(),
{
    if outs.len() > 0 {
        let d = outs.drop_last();
        assert(all_ok(d)) by {
            assert forall|i: int| 0 <= i < d.len() implies #[trigger] d[i] is Ok by {
                assert(d[i] == outs[i]);
            }
        }
        lemma_chain_all_ok(v, d);
        assert(oks(outs).drop_last() =~= oks(d));
        assert(outs[outs.len() - 1] is Ok);
    }
}

impl View for SequentialChain {
    type V = ChainView;

    closed spec fn view(&self) -> ChainView {
        ChainView { current: self.current@, result: self.result@, failure: self.failure }
    }
}

impl SequentialChain {
    /// A chain whose first agent gets `input`, with no outputs recorded.
    pub fn start(input: &str) -> (c: SequentialChain)
        ensures
            c@.current == input@,
            c@.result == (ResultView {
                content: Seq::<char>::empty(),
                agent_outputs: Seq::<OutputView>::empty(),
                pattern_type: "sequential"@,
                total_time_ms: 0,
                agent_count: 0,
                handoff_count: 0,
                extra: seq![],
            }),
            c@.failure is None,
    {
        SequentialChain {
            current: owned(input),
            result: OrchestratorResult::new(String::new(), owned("sequential")),
            failure: None,
        }
    }

    /// Whether the next agent is to run: no agent has failed yet.
    pub fn wants_next(&self) -> (b: bool)
        ensures
            b == (self@.failure is None),
    {
        self.failure.is_none()
    }

    /// Records the failure of the agent that just ran: the chain stops, and
    /// what it has gathered so far stays as it is.
    pub fn fail(&mut self, error: Error)
        requires
            old(self)@.failure is None,
        ensures
            final(self)@ == chain_fail(old(self)@, error),
    {
        self.failure = Some(error);
    }

    /// The input of the next agent.
    pub fn next_input(&self) -> (s: &str)
        ensures
            s@ == self@.current,
    {
        self.current.as_str()
    }

    /// Records an agent's output: it joins the result, and its content is the
    /// next agent's input. Only a chain that has not stopped records.
    pub fn record(&mut self, output: AgentOutput)
        requires
            old(self)@.failure is None,
        ensures
            final(self)@ == chain_step(old(self)@, output@),
            final(self)@.current == output@.content,
            final(self)@.result == (ResultView {
                agent_outputs: record_output(old(self)@.result.agent_outputs, output@),
                agent_count: record_output(old(self)@.result.agent_outputs, output@).len() as usize,
                ..old(self)@.result
            }),
            final(self)@.failure is None,
    {
        let content = output.content.clone();
        let mut result = OrchestratorResult::new(String::new(), String::new());
        std::mem::swap(&mut result, &mut self.result);
        self.result = result.with_agent_output(output);
        self.current = content;
    }

    /// The outcome: the error of the agent that failed, if one did; otherwise
    /// the result, with the last agent's answer (the input itself when no
    /// agent ran) and the total time.
    pub fn finish(self, time_ms: u64) -> (r: Result<OrchestratorResult, Error>)
        ensures
            match self@.failure {
                Some(e) => r == Err::<OrchestratorResult, Error>(e),
                None => r matches Ok(res)
                    && res@ == (ResultView { content: self@.current, total_time_ms: time_ms, ..self@.result }),
            },
    {
        match self.failure {
            Some(e) => Err(e),
            None => {
                let mut result = self.result;
                result.content = self.current;
                Ok(result.with_time(time_ms))
            },
        }
    }
}

} // verus!
