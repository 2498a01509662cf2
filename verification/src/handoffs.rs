//! Handing control from one agent to another.
use vstd::prelude::*;
use std::time::Duration;
use crate::json::{member_views, set_entry, set_member, Json};
use crate::react::{Observation, ReActTrace};
use crate::types::AgentId;

verus! {

/// What a handoff carries to the receiving agent.
#[derive(Debug)]
pub struct HandoffContext {
    /// The user's original query.
    pub original_query: String,
    /// Observations made so far.
    pub observations: Vec<Observation>,
    /// Reasoning so far.
    pub trace: ReActTrace,
    /// Extra data, each key once.
    pub metadata: Vec<(String, Json)>,
}

impl HandoffContext {
    /// A context for this query with nothing gathered yet.
    pub fn new(original_query: String) -> (c: HandoffContext)
        ensures
            c.original_query@ == original_query@,
            c.observations@.len() == 0,
            c.trace@.thoughts.len() == 0,
            c.trace@.actions.len() == 0,
            c.trace@.observations.len() == 0,
            c.metadata@.len() == 0,
    {
        HandoffContext {
            original_query,
            observations: Vec::new(),
            trace: ReActTrace::new(),
            metadata: Vec::new(),
        }
    }

    /// Adds an observation.
    pub fn with_observation(self, observation: Observation) -> (c: HandoffContext)
        ensures
            c.original_query@ == self.original_query@,
            c.observations@.map_values(|o: Observation| o@) == self.observations@.map_values(
                |o: Observation| o@,
            ).push(observation@),
            c.trace@ == self.trace@,
            member_views(c.metadata@) == member_views(self.metadata@),
    {
        let mut c = self;
        let ghost before = c.observations@.map_values(|o: Observation| o@);
        let ghost ov = observation@;
        c.observations.push(observation);
        assert(c.observations@.map_values(|o: Observation| o@) =~= before.push(ov));
        c
    }

    /// Sets the trace.
    pub fn with_trace(self, trace: ReActTrace) -> (c: HandoffContext)
        ensures
            c.original_query@ == self.original_query@,
            c.observations == self.observations,
            c.trace@ == trace@,
            c.metadata == self.metadata,
    {
        let mut c = self;
        c.trace = trace;
        c
    }

    /// Sets a metadata entry.
    pub fn with_metadata(self, key: String, value: Json) -> (c: HandoffContext)
        ensures
            c.original_query@ == self.original_query@,
            c.observations == self.observations,
            c.trace@ == self.trace@,
            member_views(c.metadata@) == set_entry(member_views(self.metadata@), key@, value@),
    {
        let mut c = self;
        set_member(&mut c.metadata, key, value);
        c
    }
}

/// A request to hand control to another agent.
#[derive(Debug)]
pub struct Handoff {
    /// Agent handing off.
    pub source: AgentId,
    /// Agent taking over.
    pub target: AgentId,
    /// Why.
    pub reason: String,
    /// What is carried over.
    pub context: HandoffContext,
    /// Control comes back once the target is done.
    pub return_control: bool,
}

impl Handoff {
    /// A handoff that returns control afterwards.
    pub fn new(source: AgentId, target: AgentId, reason: String, context: HandoffContext) -> (h: Handoff)
        ensures
            h.source == source,
            h.target == target,
            h.reason@ == reason@,
            h.context == context,
            h.return_control,
    {
        Handoff { source, target, reason, context, return_control: true }
    }

    /// Sets whether control comes back.
    pub fn with_return_control(self, return_control: bool) -> (h: Handoff)
        ensures
            h.source == self.source,
            h.target == self.target,
            h.reason == self.reason,
            h.context == self.context,
            h.return_control == return_control,
    {
        let mut h = self;
        h.return_control = return_control;
        h
    }
}

/// How control passes in a handoff.
#[derive(Debug, Clone, Copy)]
pub enum HandoffStrategy {
    /// The target takes full control.
    Direct,
    /// Both agents work together.
    Collaborative,
    /// The source checks on the target at this interval.
    Supervised { check_interval: Duration },
    /// The target may delegate further, up to this depth.
    Cascading { max_depth: u32 },
}

impl Default for HandoffStrategy {
    fn default() -> (s: HandoffStrategy)
        ensures
            s is Direct,
    {
        HandoffStrategy::Direct
    }
}

} // verus!
