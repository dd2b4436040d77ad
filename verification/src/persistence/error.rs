//! Persistence-layer errors (optimistic locking, etc.).

use vstd::prelude::*;

use crate::object::ObjectId;
use crate::text::{decimal, decimal_string, owned, push_str};

verus! {

/// Persistence-layer errors (optimistic locking, etc.).
#[derive(Debug, Clone, PartialEq, Eq)]
pub enum PersistenceError {
    /// Another writer committed before this save (`revision` mismatch).
    RevisionConflict { id: ObjectId, expected: u64, actual: u64 },
}

impl PersistenceError {
    pub fn is_revision_conflict(&self) -> (r: bool)
        ensures
            r == self is RevisionConflict,
    {
        match self {
            PersistenceError::RevisionConflict { .. } => true,
        }
    }

    /// The text shown for this error.
    pub open spec fn text(&self) -> Seq<char> {
        match self {
            PersistenceError::RevisionConflict { id, expected, actual } => "revision conflict for "@ + id@
                + ": expected "@ + decimal(*expected as nat) + ", database has "@ + decimal(*actual as nat),
        }
    }

    /// The error as text: `revision conflict for <id>: expected <n>, database has <m>`.
    pub fn message(&self) -> (r: String)
        ensures
            r@ == self.text(),
    {
        match self {
            PersistenceError::RevisionConflict { id, expected, actual } => {
                let mut s = owned("revision conflict for ");
                push_str(&mut s, id.as_str());
                push_str(&mut s, ": expected ");
                push_str(&mut s, decimal_string(*expected).as_str());
                push_str(&mut s, ", database has ");
                push_str(&mut s, decimal_string(*actual).as_str());
                s
            },
        }
    }
}

} // verus!
