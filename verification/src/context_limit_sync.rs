//! Keeping the UI's context limit in step with the provider.

use vstd::prelude::*;

verus! {

/// The context limit that the UI budgets against.
pub struct ContextBudget {
    pub context_limit: u64,
    /// Whether the warning that the limit comes near has been shown.
    pub context_warning_shown: bool,
}

impl ContextBudget {
    /// Adopts the provider's context window, if it has changed. The limit is
    /// taken once at the start, when a provider that learns its limits from a
    /// catalog has not answered yet. Returns the new budget where the limit
    /// moved; a session that runs elsewhere keeps its limit.
    pub fn sync_context_limit_from_provider(&mut self, is_remote: bool, live: usize) -> (r: Option<
        usize,
    >)
        ensures
            (if is_remote || live == old(self).context_limit {
                *final(self) == *old(self) && r is None
            } else {
                final(self).context_limit == live && !final(self).context_warning_shown && r
                    == Some(live)
            }),
    {
        if is_remote {
            return None;
        }
        if live as u64 == self.context_limit {
            return None;
        }
        self.context_limit = live as u64;
        self.context_warning_shown = false;
        Some(live)
    }
}

} // verus!
