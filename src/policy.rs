//! What an escalation manager, and a contract that asked for callbacks, are told.
use vstd::prelude::*;

verus! {

/// Flags that an escalation manager returns for an assertion.
pub struct AssertionPolicy {
    /// The assertion should be rejected.
    pub block_assertion: bool,
    /// Disputes are arbitrated by the escalation manager instead of the voting engine.
    pub arbitrate_via_escalation_manager: bool,
    /// The oracle's own resolution is discarded.
    pub discard_oracle: bool,
    /// The escalation manager decides who may dispute.
    pub validate_disputers: bool,
}

impl AssertionPolicy {
    /// The policy of an assertion without an escalation manager: every flag off.
    pub fn default_policy() -> (r: Self)
        ensures
            !r.block_assertion,
            !r.arbitrate_via_escalation_manager,
            !r.discard_oracle,
            !r.validate_disputers,
    {
        AssertionPolicy {
            block_assertion: false,
            arbitrate_via_escalation_manager: false,
            discard_oracle: false,
            validate_disputers: false,
        }
    }
}

/// A contract that the oracle notifies when one of its assertions changes state.
///
/// `assertion_id` is the hexadecimal form of the 32-byte assertion id.
pub trait OptimisticOracleCallbackRecipientInterface {
    /// The assertion was settled; `asserted_truthfully` is its resolution.
    fn assertion_resolved_callback(&mut self, assertion_id: String, asserted_truthfully: bool);

    /// The assertion was disputed.
    fn assertion_disputed_callback(&mut self, assertion_id: String);
}

} // verus!
