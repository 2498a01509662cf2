//! Pattern configuration: pattern kinds, aggregation strategies, defaults,
//! and the identities of generated subagents.
use vstd::prelude::*;
use crate::text::{decimal, owned, push_decimal, replace_all, replace_chars, string_from_chars, to_chars};

verus! {

/// Supported pattern kinds.
#[derive(Debug, Clone, Copy, PartialEq, Eq, Structural)]
pub enum PatternType {
    Sequential,
    Concurrent,
    Hierarchical,
    Debate,
    Router,
    Consensus,
}

/// How the answers of agents that ran in parallel are combined.
#[derive(Debug, Clone, Copy, PartialEq, Eq, Structural)]
pub enum AggregationStrategy {
    /// Concatenate all outputs under their agents' names.
    Concatenate,
    /// Merge the outputs' lines, each distinct line once.
    Merge,
    /// Take the first output.
    First,
    /// Take the longest output.
    Longest,
    /// Join the outputs for a synthesizer.
    Synthesize,
}

impl Default for AggregationStrategy {
    fn default() -> (s: AggregationStrategy)
        ensures
            s == AggregationStrategy::Concatenate,
    {
        AggregationStrategy::Concatenate
    }
}

/// The variant name of a strategy, as its `Debug` form prints it.
pub open spec fn strategy_name(s: AggregationStrategy) -> Seq<char> {
    match s {
        AggregationStrategy::Concatenate => "Concatenate"@,
        AggregationStrategy::Merge => "Merge"@,
        AggregationStrategy::First => "First"@,
        AggregationStrategy::Longest => "Longest"@,
        AggregationStrategy::Synthesize => "Synthesize"@,
    }
}

impl AggregationStrategy {
    /// The variant name of this strategy.
    pub fn name(&self) -> (s: String)
        ensures
            s@ == strategy_name(*self),
    {
        match self {
            AggregationStrategy::Concatenate => owned("Concatenate"),
            AggregationStrategy::Merge => owned("Merge"),
            AggregationStrategy::First => owned("First"),
            AggregationStrategy::Longest => owned("Longest"),
            AggregationStrategy::Synthesize => owned("Synthesize"),
        }
    }
}

/// Default number of debate rounds.
pub fn default_debate_rounds() -> (n: usize)
    ensures
        n == 2,
{
    2
}

/// Default maximum number of reasoning loops of an agent.
pub fn default_max_loops() -> (n: usize)
    ensures
        n == 5,
{
    5
}

/// Name of the subagent at position `i` (counted from zero).
pub open spec fn subagent_name(i: nat) -> Seq<char> {
    "Subagent_"@ + decimal(i + 1)
}

/// System prompt of the subagent at position `i`: the template with every
/// `{index}` replaced by the subagent's number (counted from one).
pub open spec fn subagent_prompt(template: Seq<char>, i: nat) -> Seq<char> {
    replace_all(template, "{index}"@, decimal(i + 1))
}

/// Names and system prompts of `count` subagents generated from a template.
pub fn subagent_identities(count: usize, template: &str) -> (r: Vec<(String, String)>)
    ensures
        r@.len() == count,
        forall|i: int|
            0 <= i < count ==> (#[trigger] r@[i]).0@ == subagent_name(i as nat) && r@[i].1@
                == subagent_prompt(template@, i as nat),
{
    let t = to_chars(template);
    let pat = to_chars("{index}");
    let mut r: Vec<(String, String)> = Vec::new();
    let mut i: usize = 0;
    while i < count
        invariant
            i <= count,
            r@.len() == i,
            t@ == template@,
            pat@ == "{index}"@,
            forall|j: int|
                0 <= j < i ==> (#[trigger] r@[j]).0@ == subagent_name(j as nat) && r@[j].1@
                    == subagent_prompt(template@, j as nat),
        decreases count - i,
    {
        let mut name = owned("Subagent_");
        push_decimal(&mut name, i + 1);
        let mut num = String::new();
        push_decimal(&mut num, i + 1);
        assert(num@ =~= decimal((i + 1) as nat));
        let n = to_chars(num.as_str());
        proof {
            reveal_strlit("{index}");
        }
        let prompt = string_from_chars(replace_chars(t.as_slice(), pat.as_slice(), n.as_slice()).as_slice());
        r.push((name, prompt));
        i = i + 1;
    }
    r
}

} // verus!
