//! Location references for the object graph (where an object resides).

use vstd::prelude::*;

use super::ObjectId;

verus! {

/// A typed reference to where an object can be located in the world graph.
#[derive(Debug, Clone, PartialEq, Eq)]
pub enum LocationRef {
    /// On the ground in a room, area, or other navigable place.
    Room(ObjectId),
    /// Carried by a creature (player/NPC) — body slots and nested containers.
    Inventory(ObjectId),
    /// Inside a container object, optionally in a named sub-slot.
    Container(ObjectId, Option<String>),
    /// Worn or held in a specific anatomical slot on a creature.
    BodySlot(ObjectId, String),
    /// Not placed anywhere (abstract, deleted staging, etc.).
    Nowhere,
}

impl LocationRef {
    /// The object that directly holds a location.
    pub open spec fn holder(&self) -> Option<ObjectId> {
        match self {
            LocationRef::Room(id) => Some(*id),
            LocationRef::Inventory(id) => Some(*id),
            LocationRef::Container(id, _) => Some(*id),
            LocationRef::BodySlot(id, _) => Some(*id),
            LocationRef::Nowhere => None,
        }
    }

    /// The object that directly holds this location, if any.
    pub fn holder_id(&self) -> (r: Option<&ObjectId>)
        ensures
            match r {
                Some(id) => self.holder() == Some(*id),
                None => self.holder() is None,
            },
    {
        match self {
            LocationRef::Room(id) => Some(id),
            LocationRef::Inventory(id) => Some(id),
            LocationRef::Container(id, _) => Some(id),
            LocationRef::BodySlot(id, _) => Some(id),
            LocationRef::Nowhere => None,
        }
    }

    /// Whether this location is a navigable place (room/area).
    pub fn is_room(&self) -> (r: bool)
        ensures
            r == self is Room,
    {
        match self {
            LocationRef::Room(_) => true,
            _ => false,
        }
    }

    /// Whether this location is on a creature's person.
    pub fn is_inventory(&self) -> (r: bool)
        ensures
            r == (self is Inventory || self is BodySlot),
    {
        match self {
            LocationRef::Inventory(_) => true,
            LocationRef::BodySlot(_, _) => true,
            _ => false,
        }
    }
}

} // verus!
