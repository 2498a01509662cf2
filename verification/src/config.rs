//! Provider routing preferences.
use vstd::prelude::*;

verus! {

/// What provider selection optimizes for.
#[derive(Debug, Clone, Copy, PartialEq, Eq, Structural)]
pub enum OptimizationTarget {
    /// Lower cost.
    LowerCost,
    /// Balance of cost and performance.
    Balanced,
    /// Performance.
    Performance,
}

/// Provider preferences for routing requests.
#[derive(Debug, Clone)]
pub struct ProviderPreferences {
    /// Preferred providers, by priority.
    pub preferred: Vec<String>,
    /// Providers to exclude.
    pub excluded: Vec<String>,
    /// Optimization target.
    pub optimization: OptimizationTarget,
}

impl Default for ProviderPreferences {
    /// No preferences, balanced optimization.
    fn default() -> (p: ProviderPreferences)
        ensures
            p.preferred@.len() == 0,
            p.excluded@.len() == 0,
            p.optimization == OptimizationTarget::Balanced,
    {
        ProviderPreferences {
            preferred: Vec::new(),
            excluded: Vec::new(),
            optimization: OptimizationTarget::Balanced,
        }
    }
}

} // verus!
