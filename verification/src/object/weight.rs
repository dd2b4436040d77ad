//! Carry limits: unlimited capacity, the player's base limit, and who bears an item's weight.

use vstd::prelude::*;

use super::location::LocationRef;
use super::world::{contains_id, find_obj, find_object, holds_id, lemma_find_obj};
use super::{Object, ObjectId};

verus! {

/// Default carrying capacity for new players.
pub const DEFAULT_PLAYER_MAX_WEIGHT: i64 = 100;

/// `max_weight` value meaning unlimited capacity.
pub const UNLIMITED_WEIGHT: i64 = -1;

/// How encumbrance affects player movement.
#[derive(Debug, Clone, Copy, PartialEq, Eq, Structural)]
pub enum EncumbranceLevel {
    /// Below the slow threshold — normal movement.
    Unencumbered,
    /// Near capacity — movement allowed with extra narration.
    Encumbered,
    /// At or over capacity — movement blocked.
    Overloaded,
}

/// Whether a weight limit value denotes unlimited capacity.
pub fn is_unlimited_weight(limit: i64) -> (r: bool)
    ensures
        r == (limit < 0),
{
    limit < 0
}

/// Whether a stored weight limit should be enforced or displayed as a cap.
pub fn weight_limit_applies(limit: Option<i64>) -> (r: bool)
    ensures
        r == (limit matches Some(l) && l >= 0),
{
    match limit {
        Some(l) => !is_unlimited_weight(l),
        None => false,
    }
}

/// Base carry limit stored on the player (before worn bonuses).
pub fn player_base_max_weight(player: &Object) -> (r: Option<i64>)
    requires
        player.wf(),
    ensures
        r == player.int_prop("max_weight"@),
{
    player.get_int_property("max_weight")
}

/// Every object of the world keeps one entry per property, verb and handler name.
pub open spec fn world_wf(objs: Seq<Object>) -> bool {
    forall|i: int| 0 <= i < objs.len() ==> (#[trigger] objs[i]).wf()
}

/// How many objects of `objs` have an id outside `visited`.
pub open spec fn unvisited(objs: Seq<Object>, visited: Set<Seq<char>>) -> nat
    decreases objs.len(),
{
    if objs.len() == 0 {
        0
    } else {
        unvisited(objs.drop_last(), visited) + if visited.contains(objs.last().id@) {
            0nat
        } else {
            1nat
        }
    }
}

/// Visiting the id of one of the objects leaves fewer objects unvisited.
pub proof fn lemma_unvisited_shrinks(objs: Seq<Object>, visited: Set<Seq<char>>, o: Object)
    requires
        objs.contains(o),
        !visited.contains(o.id@),
    ensures
        unvisited(objs, visited.insert(o.id@)) < unvisited(objs, visited),
    decreases objs.len(),
{
    lemma_unvisited_le(objs.drop_last(), visited, o.id@);
    if objs.last() != o {
        let j = choose|j: int| 0 <= j < objs.len() && objs[j] == o;
        assert(objs.drop_last()[j] == o);
        lemma_unvisited_shrinks(objs.drop_last(), visited, o);
    }
}

/// Visiting more ids never leaves more objects unvisited.
pub proof fn lemma_unvisited_le(objs: Seq<Object>, visited: Set<Seq<char>>, c: Seq<char>)
    ensures
        unvisited(objs, visited.insert(c)) <= unvisited(objs, visited),
    decreases objs.len(),
{
    if objs.len() > 0 {
        lemma_unvisited_le(objs.drop_last(), visited, c);
    }
}

/// The creature that wears or holds the container `cur`, walking up through
/// enclosing containers and giving up on any id already in `visited`.
pub open spec fn owner_walk(objs: Seq<Object>, cur: Seq<char>, visited: Set<Seq<char>>) -> Option<ObjectId>
    decreases unvisited(objs, visited),
{
    if visited.contains(cur) {
        None
    } else {
        match find_obj(objs, cur) {
            None => None,
            Some(obj) => match obj.location {
                None => None,
                Some(pid) => match find_obj(objs, pid@) {
                    None => None,
                    Some(parent) => if parent.creature_role() {
                        Some(pid)
                    } else if parent.container_role() {
                        proof {
                            lemma_find_obj(objs, cur);
                            lemma_unvisited_shrinks(objs, visited, obj);
                        }
                        owner_walk(objs, pid@, visited.insert(cur))
                    } else {
                        None
                    },
                },
            },
        }
    }
}

/// The views of the ids in `v`.
pub open spec fn id_set(v: Seq<ObjectId>) -> Set<Seq<char>> {
    Set::new(|x: Seq<char>| holds_id(v, x))
}

/// Walk the container parent chain to the creature wearing or holding it.
pub fn owner_player_of_container(container_id: &ObjectId, objects: &Vec<Object>) -> (r: Option<ObjectId>)
    requires
        world_wf(objects@),
    ensures
        r == owner_walk(objects@, container_id@, Set::empty()),
{
    let mut current: ObjectId = container_id.clone();
    let mut visited: Vec<ObjectId> = Vec::new();
    assert(id_set(visited@) =~= Set::<Seq<char>>::empty());
    loop
        invariant
            world_wf(objects@),
            owner_walk(objects@, container_id@, Set::empty()) == owner_walk(
                objects@,
                current@,
                id_set(visited@),
            ),
        decreases unvisited(objects@, id_set(visited@)),
    {
        if contains_id(&visited, &current) {
            return None;
        }
        let ghost before = id_set(visited@);
        let ghost old_visited = visited@;
        visited.push(current.clone());
        assert(visited@.drop_last() =~= old_visited);
        assert(id_set(visited@) =~= before.insert(current@)) by {
            assert forall|x: Seq<char>| #[trigger] holds_id(visited@, x) <==> (holds_id(
                visited@.drop_last(),
                x,
            ) || x == current@) by {
                if holds_id(visited@, x) {
                    let a = choose|a: int| 0 <= a < visited@.len() && visited@[a]@ == x;
                    if a < visited@.len() - 1 {
                        assert(visited@.drop_last()[a] == visited@[a]);
                    }
                }
                if holds_id(visited@.drop_last(), x) {
                    let a = choose|a: int| 0 <= a < visited@.drop_last().len() && visited@.drop_last()[a]@ == x;
                    assert(visited@[a] == visited@.drop_last()[a]);
                }
                if x == current@ {
                    assert(visited@[visited@.len() - 1]@ == x);
                }
            }
        }
        let obj = match find_object(objects, &current) {
            Some(o) => o,
            None => {
                return None;
            },
        };
        let parent_id = match &obj.location {
            Some(p) => p,
            None => {
                return None;
            },
        };
        let parent = match find_object(objects, parent_id) {
            Some(p) => p,
            None => {
                return None;
            },
        };
        proof {
            lemma_find_obj(objects@, parent_id@);
            lemma_find_obj(objects@, current@);
            lemma_unvisited_shrinks(objects@, before, *obj);
        }
        if parent.has_creature_role() {
            return Some(parent_id.clone());
        }
        if !parent.is_container() {
            return None;
        }
        current = parent_id.clone();
    }
}

/// Player who bears carry weight when an item moves to `loc`: the carrier itself,
/// or the creature wearing the container.
pub fn player_weight_bearer(loc: &LocationRef, objects: &Vec<Object>) -> (r: Option<ObjectId>)
    requires
        world_wf(objects@),
    ensures
        r == match loc {
            LocationRef::Inventory(id) => Some(*id),
            LocationRef::BodySlot(id, _) => Some(*id),
            LocationRef::Container(cid, _) => owner_walk(objects@, cid@, Set::empty()),
            _ => None,
        },
{
    match loc {
        LocationRef::Inventory(id) => Some(id.clone()),
        LocationRef::BodySlot(id, _) => Some(id.clone()),
        LocationRef::Container(cid, _) => owner_player_of_container(cid, objects),
        _ => None,
    }
}

/// The owner found by walking up from a container is an object of the world
/// with a creature role.
pub proof fn law_owner_is_a_creature(objs: Seq<Object>, cur: Seq<char>, visited: Set<Seq<char>>)
    ensures
        owner_walk(objs, cur, visited) matches Some(pid) ==> (find_obj(objs, pid@) matches Some(p)
            && p.creature_role() && objs.contains(p)),
    decreases unvisited(objs, visited),
{
    if !visited.contains(cur) {
        if let Some(obj) = find_obj(objs, cur) {
            if let Some(pid) = obj.location {
                if let Some(parent) = find_obj(objs, pid@) {
                    lemma_find_obj(objs, pid@);
                    if !parent.creature_role() && parent.container_role() {
                        lemma_find_obj(objs, cur);
                        lemma_unvisited_shrinks(objs, visited, obj);
                        law_owner_is_a_creature(objs, pid@, visited.insert(cur));
                    }
                }
            }
        }
    }
}

} // verus!
