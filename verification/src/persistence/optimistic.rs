//! Optimistic saves: the revision a retry expects.

use vstd::prelude::*;

use super::metadata::restamped;
use crate::object::Object;

verus! {

/// Apply fresh database revision to a locally mutated object before retrying a save.
pub fn refresh_revision_from_db(local: &mut Object, fresh: &Object)
    ensures
        restamped(*old(local), *final(local), fresh.revision, fresh.updated_at),
{
    local.revision = fresh.revision;
    local.updated_at = match &fresh.updated_at {
        Some(t) => Some(t.clone()),
        None => None,
    };
}

/// Maximum optimistic-save retries before surfacing a conflict to the caller.
pub const DEFAULT_SAVE_RETRIES: u32 = 5;

} // verus!
