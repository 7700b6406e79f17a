//! On-chain state machines for a records-consent registry and a reward-token ledger.
//!
//! Each contract owns a keyed store and changes it only through entry points that
//! run to completion or leave the state untouched. The entry points take the host's
//! facts about a call (who calls, at what time) as an explicit [`chain::CallContext`].

pub mod access_control;
pub mod chain;
pub mod store;
pub mod token_economy;
