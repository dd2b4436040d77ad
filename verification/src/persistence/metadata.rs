//! Row metadata returned after a successful optimistic save.

use vstd::prelude::*;

use crate::object::Object;

verus! {

/// Row metadata returned after a successful optimistic save.
#[derive(Debug, Clone, PartialEq, Eq)]
pub struct SaveMetadata {
    pub revision: u64,
    pub updated_at: String,
}

/// `after` is `before` with a new revision and update time.
pub open spec fn restamped(before: Object, after: Object, revision: u64, updated_at: Option<String>) -> bool {
    after == Object { revision, updated_at, ..before }
}

impl SaveMetadata {
    /// Records the saved revision and update time on the in-memory object.
    pub fn apply_to(&self, object: &mut Object)
        ensures
            restamped(*old(object), *final(object), self.revision, Some(self.updated_at)),
    {
        object.revision = self.revision;
        object.updated_at = Some(self.updated_at.clone());
    }
}

} // verus!
