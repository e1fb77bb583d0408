//! Data-access layer of a moderation bot.
//!
//! The library keeps, per community, a configuration row (welcome and goodbye
//! messages, advertisement policy, admin channel and three privilege role-sets)
//! and a moderation ledger of "slaps". Every operation works on a table value
//! handed in by the caller, which stands for the relational store; the library
//! keeps no state of its own between calls.
//!
//! The configuration upholds one cross-set rule: a role that holds the admin
//! privilege also holds the manager privilege.
use vstd::prelude::*;

pub mod guild;
pub mod ids;
pub mod slap;
pub mod sql;

use crate::guild::GuildConfigError;

verus! {

/// A failure of the store itself, as opposed to a refusal by the library's
/// rules. It carries no domain meaning: callers treat it as operational.
#[derive(Debug, PartialEq, Eq)]
pub enum StoreError {
    /// A row would have repeated a primary key: the key it repeated.
    KeyViolation(u64),
}

/// Errors of the library as a whole.
#[derive(Debug, PartialEq, Eq)]
pub enum AdapterError {
    /// The store failed or refused a statement. The ledger keys its rows by
    /// message, so a second row for one message ends here.
    Store(StoreError),
    /// An error of a community's configuration.
    GuildError(GuildConfigError),
}

} // verus!
