//! Actors and what their background work leaves behind.
use vstd::prelude::*;

pub mod activity_log;
pub mod background;
pub mod background_laws;
pub mod collection;
pub mod ledger_laws;
pub mod notification;
pub mod notification_laws;
pub mod registry;
pub mod review;

verus! {

/// What can go wrong around actors.
#[derive(Debug, PartialEq, Eq)]
pub enum ActorError {
    /// No actor has this id.
    NotFound(String),
    /// A failure of the runtime around the actors, in words.
    Runtime(String),
}

/// The result of an operation on actors.
pub type ActorResult<T> = Result<T, ActorError>;

} // verus!
