//! NoopReflector — always answers `Unknown`. The default.

use vstd::prelude::*;

use super::{PendingCase, PromptHash, ReflectError, Reflection};

verus! {

/// What the no-op reflector says of every case.
pub const NOOP_SUMMARY: &'static str = "NoopReflector: no LLM available. Enable feature `local-reflector` or use `MockReflector` in tests.";

/// Reflector that always returns `Reflection::Unknown`.
#[derive(Debug, Default, Clone, Copy)]
pub struct NoopReflector;

impl NoopReflector {
    /// Create an instance.
    pub fn new() -> (r: Self) {
        NoopReflector
    }

    /// The reflection on any case: `Unknown` with `NOOP_SUMMARY`.
    pub fn reflect_case(&self, _case: &PendingCase) -> (r: Result<Reflection, ReflectError>)
        ensures
            r matches Ok(Reflection::Unknown { summary: s, top_features: t }) && s@ == NOOP_SUMMARY@
                && t@.len() == 0,
    {
        Ok(Reflection::unknown(NOOP_SUMMARY))
    }

    /// Backend name (for audit).
    pub fn name(&self) -> (r: &'static str)
        ensures
            r@ == "noop"@,
    {
        "noop"
    }

    /// Stable fingerprint.
    pub fn fingerprint(&self) -> (r: PromptHash)
        ensures
            r.0@ == "noop@v1"@,
    {
        PromptHash("noop@v1".to_owned())
    }
}

} // verus!
