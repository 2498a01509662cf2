//! The output of a workflow pattern.
use vstd::prelude::*;
use crate::json::Json;

verus! {

/// What a workflow pattern produced.
#[derive(Debug)]
pub struct PatternOutput {
    /// Final answer.
    pub content: String,
    /// Extra data.
    pub metadata: Json,
}

} // verus!
