//! An optimistic-assertion oracle with a commit-reveal voting engine for disputes.
//!
//! `oracle` holds bonded assertions, their disputes and the retryable
//! settlement payout; `voting` runs the commit-reveal vote that resolves an
//! escalated dispute, with the counting in `tally`. Around them stand the
//! owner-gated registries, the escalation managers, the collateral vault and
//! the voting token's roles.
//!
//! Reading the clock and the caller's identity, and performing token
//! transfers and cross-contract calls, are left to the host: every entry
//! point takes them as plain values and returns the outside work that should
//! follow as a plain value, with continuations that take its outcome.

pub mod types;
pub mod encoding;
pub mod digest;
pub mod keyed;
pub mod policy;
pub mod tally;
pub mod voting;
pub mod oracle;
pub mod registries;
pub mod escalation;
pub mod vault;
pub mod token;
