//! Outcome of an input or output guardrail check.
use vstd::prelude::*;

verus! {

/// Result of a guardrail check. The confidence score that accompanies it is a
/// float and is attached outside this crate.
pub struct GuardrailResult {
    /// Whether the check passed.
    pub passed: bool,
    /// Whether execution must halt.
    pub tripwire_triggered: bool,
    /// Explanation of the result.
    pub reasoning: String,
    /// Suggested modification, if any.
    pub suggested_modification: Option<String>,
}

/// `(passed, tripwire_triggered, reasoning, suggested_modification)`.
pub type GuardrailView = (bool, bool, Seq<char>, Option<Seq<char>>);

impl View for GuardrailResult {
    type V = GuardrailView;

    open spec fn view(&self) -> GuardrailView {
        (
            self.passed,
            self.tripwire_triggered,
            self.reasoning@,
            match self.suggested_modification {
                Some(s) => Some(s@),
                None => None,
            },
        )
    }
}

impl GuardrailResult {
    /// A passing result.
    pub fn pass(reasoning: String) -> (r: GuardrailResult)
        ensures
            r.passed,
            !r.tripwire_triggered,
            r.reasoning@ == reasoning@,
            r.suggested_modification is None,
    {
        GuardrailResult {
            passed: true,
            tripwire_triggered: false,
            reasoning,
            suggested_modification: None,
        }
    }

    /// A failing result.
    pub fn fail(reasoning: String) -> (r: GuardrailResult)
        ensures
            !r.passed,
            !r.tripwire_triggered,
            r.reasoning@ == reasoning@,
            r.suggested_modification is None,
    {
        GuardrailResult {
            passed: false,
            tripwire_triggered: false,
            reasoning,
            suggested_modification: None,
        }
    }

    /// A failing result that triggers a tripwire.
    pub fn tripwire(reasoning: String) -> (r: GuardrailResult)
        ensures
            !r.passed,
            r.tripwire_triggered,
            r.reasoning@ == reasoning@,
            r.suggested_modification is None,
    {
        GuardrailResult {
            passed: false,
            tripwire_triggered: true,
            reasoning,
            suggested_modification: None,
        }
    }

    /// The same result with a suggested modification.
    pub fn with_suggestion(self, suggestion: String) -> (r: GuardrailResult)
        ensures
            r.passed == self.passed,
            r.tripwire_triggered == self.tripwire_triggered,
            r.reasoning@ == self.reasoning@,
            r.suggested_modification matches Some(s) && s@ == suggestion@,
    {
        GuardrailResult { suggested_modification: Some(suggestion), ..self }
    }
}

/// What a guardrail knows of the check it performs.
#[derive(Debug)]
pub struct GuardrailContext {
    /// Agent being checked.
    pub agent_id: crate::types::AgentId,
    /// Extra data, each key once.
    pub data: Vec<(String, crate::json::Json)>,
}

impl GuardrailContext {
    /// A context with no data.
    pub fn new(agent_id: crate::types::AgentId) -> (c: GuardrailContext)
        ensures
            c.agent_id == agent_id,
            c.data@.len() == 0,
    {
        GuardrailContext { agent_id, data: Vec::new() }
    }
}

/// What the result of a guardrail (on input or output) means for a run: it goes on when
/// the check passed, and otherwise stops with a guardrail violation naming
/// the guardrail and carrying its reasoning.
pub fn guardrail_verdict(guardrail_id: &str, result: GuardrailResult) -> (r: Result<(), crate::error::Error>)
    ensures
        result.passed ==> r is Ok,
        !result.passed ==> (r matches Err(crate::error::Error::GuardrailViolation { guardrail, reason })
            && guardrail@ == guardrail_id@ && reason@ == result.reasoning@),
{
    if result.passed {
        Ok(())
    } else {
        Err(crate::error::Error::guardrail_violation(crate::text::owned(guardrail_id), result.reasoning))
    }
}

} // verus!
