//! MockReflector — deterministic pre-programmed responses for testing.
//!
//! Each reflection pops the next queued `Reflection`. When the queue is
//! empty, reflecting gives `ReflectError::Backend("exhausted")`.

use vstd::prelude::*;

use super::{PendingCase, PromptHash, ReflectError, Reflection};

verus! {

/// Pre-programmed reflector — pops queued responses in order.
#[derive(Debug)]
pub struct MockReflector {
    responses: Vec<Reflection>,
}

impl MockReflector {
    /// The responses still queued, next first.
    pub closed spec fn queue(&self) -> Seq<Reflection> {
        self.responses@
    }

    /// Build from a list of pre-programmed reflections.
    pub fn new(responses: Vec<Reflection>) -> (r: Self)
        ensures
            r.queue() == responses@,
    {
        MockReflector { responses }
    }

    /// Remaining queued responses.
    pub fn remaining(&self) -> (n: usize)
        ensures
            n == self.queue().len(),
    {
        self.responses.len()
    }

    /// Reflect: pop the next queued response, or fail when none is left.
    pub fn reflect_case(&mut self, _case: &PendingCase) -> (r: Result<Reflection, ReflectError>)
        ensures
            old(self).queue().len() > 0 ==> r == Ok::<Reflection, ReflectError>(old(self).queue()[0])
                && final(self).queue() == old(self).queue().drop_first(),
            old(self).queue().len() == 0 ==> (r matches Err(ReflectError::Backend(m)) && m@
                == "exhausted"@) && final(self).queue() == old(self).queue(),
    {
        if self.responses.len() == 0 {
            Err(ReflectError::Backend("exhausted".to_owned()))
        } else {
            let first = self.responses.remove(0);
            assert(self.responses@ =~= old(self).responses@.drop_first());
            Ok(first)
        }
    }

    /// Backend name (for audit).
    pub fn name(&self) -> (r: &'static str)
        ensures
            r@ == "mock"@,
    {
        "mock"
    }

    /// Stable fingerprint.
    pub fn fingerprint(&self) -> (r: PromptHash)
        ensures
            r.0@ == "mock@v1"@,
    {
        PromptHash("mock@v1".to_owned())
    }
}

} // verus!
