//! The translator under its short name, for callers that hold one
//! event at a time.

pub use crate::event_handling::{Event, EventPayload, MetaPtr};

use crate::change_set::ChangeSet;
use crate::event_handling::{can_resolve, translate, translated};
use vstd::prelude::*;

verus! {

/// Translates one event into one state change: the statement with
/// placeholders, and the values to bind. A metadata pointer is resolved
/// through `ipfs`; a failure of the resolver is handed on unchanged.
pub fn handle_event<E, F: Fn(String) -> Result<String, E>>(event: Event, ipfs: F) -> (outcome:
    Result<ChangeSet, E>)
    requires
        can_resolve(&ipfs, event@),
    ensures
        translated(&ipfs, event@, outcome),
{
    translate(&event, &ipfs)
}

} // verus!
