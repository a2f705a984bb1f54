//! The step path a running build reports itself under.
//!
//! The build script names where it stands — a top-level step, a nested
//! one, or the next step at the same depth — and the host keeps the
//! current path as a stack of names.

use vstd::prelude::*;

verus! {

/// The current step path of one running build, outermost name first.
pub struct StepPath {
    pub names: Vec<String>,
}

impl StepPath {
    /// A build that has not named a step yet.
    pub fn new() -> (r: StepPath)
        ensures
            r.names@.len() == 0,
    {
        StepPath { names: Vec::new() }
    }

    /// Begin a fresh top-level step: whatever was on the path is gone.
    pub fn start(&mut self, name: String)
        ensures
            final(self).names@ =~= seq![name],
    {
        self.names.clear();
        self.names.push(name);
    }

    /// Descend into a nested step.
    pub fn push(&mut self, name: String)
        ensures
            final(self).names@ == old(self).names@.push(name),
    {
        self.names.push(name);
    }

    /// Move to the next step at the current depth: the innermost name is
    /// replaced; on an empty path the name simply becomes the path.
    pub fn advance(&mut self, name: String)
        ensures
            old(self).names@.len() > 0 ==> final(self).names@ == old(
                self,
            ).names@.drop_last().push(name),
            old(self).names@.len() == 0 ==> final(self).names@ =~= seq![name],
    {
        let _ = self.names.pop();
        self.names.push(name);
    }
}

} // verus!
