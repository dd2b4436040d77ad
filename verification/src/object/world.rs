//! A world as a list of objects, each found by its id.

use vstd::prelude::*;

use super::{same_id, Object, ObjectId};

verus! {

/// Some element of `v` has the view `x`.
pub open spec fn holds_id(v: Seq<ObjectId>, x: Seq<char>) -> bool {
    exists|a: int| 0 <= a < v.len() && #[trigger] v[a]@ == x
}

/// Whether `v` holds an id with the same view as `id`.
pub fn contains_id(v: &Vec<ObjectId>, id: &ObjectId) -> (r: bool)
    ensures
        r == holds_id(v@, id@),
{
    let mut i: usize = 0;
    while i < v.len()
        invariant
            0 <= i <= v@.len(),
            forall|a: int| 0 <= a < i ==> #[trigger] v@[a]@ != id@,
        decreases v@.len() - i,
    {
        if same_id(&v[i], id) {
            return true;
        }
        i += 1;
    }
    false
}

/// The first object of `objs` with the id `id`.
pub open spec fn find_obj(objs: Seq<Object>, id: Seq<char>) -> Option<Object>
    decreases objs.len(),
{
    if objs.len() == 0 {
        None
    } else if objs[0].id@ == id {
        Some(objs[0])
    } else {
        find_obj(objs.drop_first(), id)
    }
}

/// An object found by id is one of the objects, with that id.
pub proof fn lemma_find_obj(objs: Seq<Object>, id: Seq<char>)
    ensures
        find_obj(objs, id) matches Some(o) ==> o.id@ == id && objs.contains(o),
        find_obj(objs, id) is None ==> forall|i: int| 0 <= i < objs.len() ==> (#[trigger] objs[i]).id@ != id,
    decreases objs.len(),
{
    if objs.len() > 0 {
        lemma_find_obj(objs.drop_first(), id);
        if objs[0].id@ != id {
            if let Some(o) = find_obj(objs.drop_first(), id) {
                let j = choose|j: int| 0 <= j < objs.drop_first().len() && objs.drop_first()[j] == o;
                assert(objs[j + 1] == o);
            } else {
                assert forall|i: int| 0 <= i < objs.len() implies (#[trigger] objs[i]).id@ != id by {
                    if i > 0 {
                        assert(objs[i] == objs.drop_first()[i - 1]);
                    }
                }
            }
        } else {
            assert(objs[0] == objs[0]);
        }
    }
}

/// The object with id `id`, if the world has one.
pub fn find_object<'a>(objects: &'a Vec<Object>, id: &ObjectId) -> (r: Option<&'a Object>)
    ensures
        match r {
            Some(o) => find_obj(objects@, id@) == Some(*o),
            None => find_obj(objects@, id@) is None,
        },
{
    let mut i: usize = 0;
    assert(objects@.skip(0) =~= objects@);
    while i < objects.len()
        invariant
            0 <= i <= objects@.len(),
            find_obj(objects@, id@) == find_obj(objects@.skip(i as int), id@),
        decreases objects@.len() - i,
    {
        let ghost rest = objects@.skip(i as int);
        assert(rest.drop_first() =~= objects@.skip(i + 1));
        if same_id(&objects[i].id, id) {
            assert(rest[0] == objects@[i as int]);
            return Some(&objects[i]);
        }
        i += 1;
    }
    None
}

} // verus!
