//! Player login names — unique `player:<login>` ids without counter suffix.

use vstd::prelude::*;

use super::world::find_obj;
use super::{constrain_id_base, id_base_of, slug_of, slugify_display_name, Object, ObjectId};
use crate::text::{
    before_char, char_to_uppercase, concat2, eq_ignore_case, first_piece, has_prefix, join,
    join_all, lower_seq, owned, push_str, split_char, split_on, str_eq, strip_prefix, trim,
    trim_seq, upper_case_of, views,
};

verus! {

/// Object property storing the canonical login name (lowercase slug).
pub const LOGIN_NAME_PROPERTY: &'static str = "login_name";

/// The id of the player with login name `login`.
pub open spec fn player_id_of(login: Seq<char>) -> Seq<char> {
    "player:"@ + login
}

/// Build a player object id from a normalized login name (`brains` → `player:brains`).
pub fn player_id_for_login_name(login_name: &str) -> (r: ObjectId)
    ensures
        r@ == player_id_of(login_name@),
{
    ObjectId::from_string(concat2("player:", login_name))
}

/// The login slug of raw input.
pub open spec fn login_slug(raw: Seq<char>) -> Seq<char> {
    id_base_of(slug_of(trim_seq(raw)))
}

/// Normalize user input into a unique login-name slug (lowercase, no counter suffix).
pub fn normalize_player_login_name(raw: &str) -> (r: Result<String, &'static str>)
    ensures
        trim_seq(raw@).len() == 0 ==> (r matches Err(e) && e@ == "Login name cannot be empty."@),
        trim_seq(raw@).len() > 0 && (login_slug(raw@).len() == 0 || login_slug(raw@) == "object"@)
            ==> (r matches Err(e) && e@ == "Login name contains no valid characters."@),
        trim_seq(raw@).len() > 0 && login_slug(raw@).len() > 0 && login_slug(raw@) != "object"@
            ==> (r matches Ok(s) && s@ == login_slug(raw@)),
{
    let trimmed = trim(raw);
    if trimmed.unicode_len() == 0 {
        return Err("Login name cannot be empty.");
    }
    let slug = constrain_id_base(slugify_display_name(trimmed).as_str());
    if slug.unicode_len() == 0 || str_eq(slug.as_str(), "object") {
        return Err("Login name contains no valid characters.");
    }
    Ok(slug)
}

/// A word with its first character in upper case.
pub open spec fn capitalized(part: Seq<char>) -> Seq<char> {
    if part.len() == 0 {
        Seq::empty()
    } else {
        upper_case_of(part[0]) + part.skip(1)
    }
}

/// The display name of a login slug: its `-`-separated words, capitalized, joined by spaces.
pub open spec fn login_display(login: Seq<char>) -> Seq<char> {
    join(
        split_char(login, '-').filter(|p: Seq<char>| p.len() > 0).map_values(|p: Seq<char>| capitalized(p)),
        " "@,
    )
}

/// `part` with its first character in upper case.
fn capitalize(part: &str) -> (r: String)
    ensures
        r@ == capitalized(part@),
{
    let n = part.unicode_len();
    if n == 0 {
        return String::new();
    }
    let mut r = char_to_uppercase(part.get_char(0));
    let rest = part.substring_char(1, n);
    push_str(&mut r, rest);
    assert(rest@ =~= part@.skip(1));
    r
}

/// Default in-character display name derived from a login slug (`alice-wonder` → `Alice Wonder`).
pub fn display_name_from_login_name(login_name: &str) -> (r: String)
    ensures
        r@ == login_display(login_name@),
{
    let parts = split_on(login_name, '-');
    let ghost all = split_char(login_name@, '-');
    let ghost pred = |p: Seq<char>| p.len() > 0;
    let ghost cap = |p: Seq<char>| capitalized(p);
    let mut words: Vec<String> = Vec::new();
    let mut i: usize = 0;
    while i < parts.len()
        invariant
            0 <= i <= parts@.len(),
            views(parts@) == all,
            all == split_char(login_name@, '-'),
            pred == (|p: Seq<char>| p.len() > 0),
            cap == (|p: Seq<char>| capitalized(p)),
            views(words@) == all.take(i as int).filter(pred).map_values(cap),
        decreases parts@.len() - i,
    {
        let p = parts[i].as_str();
        assert(p@ == all[i as int]);
        assert(all.take(i + 1) =~= all.take(i as int).push(p@));
        proof {
            all.take(i as int).lemma_filter_push(p@, pred);
        }
        if p.unicode_len() > 0 {
            let w = capitalize(p);
            let ghost before = views(words@);
            words.push(w);
            assert(views(words@) =~= before.push(w@));
            assert(all.take(i + 1).filter(pred).map_values(cap) =~= all.take(i as int).filter(
                pred,
            ).map_values(cap).push(cap(p@)));
        } else {
            assert(all.take(i + 1).filter(pred) =~= all.take(i as int).filter(pred));
        }
        i += 1;
    }
    assert(all.take(parts@.len() as int) =~= all);
    join_all(&words, " ")
}

/// Login slug from a player object id (`player:brains` → `Some("brains")`).
pub fn player_id_login_slug(id: &ObjectId) -> (r: Option<&str>)
    ensures
        r is Some <==> has_prefix(id@, "player:"@),
        r matches Some(s) ==> s@ == id@.skip(7),
{
    proof {
        reveal_strlit("player:");
    }
    let r = strip_prefix(id.as_str(), "player:");
    if let Some(s) = r {
        assert(s@ =~= id@.skip(7));
    }
    r
}

/// The slug a player id stands for: the id without `player:`, else the whole id.
pub open spec fn id_slug(id: Seq<char>) -> Seq<char> {
    if has_prefix(id, "player:"@) {
        id.skip(7)
    } else {
        id
    }
}

/// The display name a legacy player id gets: `player:admin-001` → `Admin`.
pub open spec fn id_display(id: Seq<char>) -> Seq<char> {
    let slug = id_slug(id);
    if slug.contains('-') && slug.len() > 0 && '0' <= slug.last() && slug.last() <= '9' {
        let base = before_char(slug, '-');
        if base.len() == 0 {
            "Player"@
        } else {
            capitalized(base)
        }
    } else {
        login_display(slug)
    }
}

/// Derive a display name from a legacy `player:` id (`player:admin-001` → `Admin`).
pub fn display_name_from_player_id(id: &ObjectId) -> (r: String)
    ensures
        r@ == id_display(id@),
{
    proof {
        reveal_strlit("player:");
    }
    let slug = match player_id_login_slug(id) {
        Some(s) => s,
        None => id.as_str(),
    };
    let n = slug.unicode_len();
    let mut has_dash = false;
    let mut i: usize = 0;
    while i < n
        invariant
            n == slug@.len(),
            0 <= i <= n,
            has_dash == slug@.take(i as int).contains('-'),
        decreases n - i,
    {
        let ghost pre = slug@.take(i as int);
        assert(slug@.take(i + 1) =~= pre.push(slug@[i as int]));
        assert(pre.push(slug@[i as int]).contains('-') == (pre.contains('-') || slug@[i as int] == '-')) by {
            let q = pre.push(slug@[i as int]);
            if q.contains('-') {
                let j = choose|j: int| 0 <= j < q.len() && q[j] == '-';
                if j < pre.len() {
                    assert(pre[j] == q[j]);
                }
            }
            if pre.contains('-') {
                let j = choose|j: int| 0 <= j < pre.len() && pre[j] == '-';
                assert(q[j] == pre[j]);
            }
            if slug@[i as int] == '-' {
                assert(q[pre.len() as int] == '-');
            }
        }
        if slug.get_char(i) == '-' {
            has_dash = true;
        }
        i += 1;
    }
    assert(slug@.take(n as int) =~= slug@);
    if has_dash && n > 0 && '0' <= slug.get_char(n - 1) && slug.get_char(n - 1) <= '9' {
        let base = first_piece(slug, '-');
        if base.unicode_len() == 0 {
            owned("Player")
        } else {
            capitalize(base)
        }
    } else {
        display_name_from_login_name(slug)
    }
}

impl Object {
    /// The canonical login name of a player object: the stored `login_name` when it
    /// is a non-empty string, else the id without `player:`.
    pub open spec fn login_name(&self) -> Option<Seq<char>> {
        if !has_prefix(self.id@, "player:"@) {
            None
        } else {
            match self.string_prop("login_name"@) {
                Some(s) => if s@.len() > 0 {
                    Some(s@)
                } else {
                    Some(self.id@.skip(7))
                },
                None => Some(self.id@.skip(7)),
            }
        }
    }
}

/// Canonical login name for a player object (property, else id suffix).
pub fn player_login_name(obj: &Object) -> (r: Option<String>)
    requires
        obj.wf(),
    ensures
        match r {
            Some(s) => obj.login_name() == Some(s@),
            None => obj.login_name() is None,
        },
{
    proof {
        reveal_strlit("player:");
    }
    if !crate::text::starts_with(obj.id.as_str(), "player:") {
        return None;
    }
    if let Some(stored) = obj.get_string_property(LOGIN_NAME_PROPERTY) {
        if stored.unicode_len() > 0 {
            return Some(stored);
        }
    }
    match player_id_login_slug(&obj.id) {
        Some(s) => Some(owned(s)),
        None => None,
    }
}

/// Whether `identity` matches a player's login name (ASCII case-insensitive).
pub open spec fn login_matches(obj: Object, identity: Seq<char>) -> bool {
    obj.login_name() matches Some(n) && lower_seq(n) == lower_seq(identity)
}

/// Whether `identity` matches a player's login name (case-insensitive).
pub fn player_login_name_matches(obj: &Object, identity: &str) -> (r: bool)
    requires
        obj.wf(),
    ensures
        r == login_matches(*obj, identity@),
{
    match player_login_name(obj) {
        Some(name) => eq_ignore_case(name.as_str(), identity),
        None => false,
    }
}

/// The first active player of `objs` whose login name matches `login`.
pub open spec fn first_player(objs: Seq<Object>, login: Seq<char>) -> Option<Object>
    decreases objs.len(),
{
    if objs.len() == 0 {
        None
    } else if !objs[0].is_deleted && login_matches(objs[0], login) {
        Some(objs[0])
    } else {
        first_player(objs.drop_first(), login)
    }
}

/// Find an active player by login name (case-insensitive).
pub fn find_player_by_login_name<'a>(objects: &'a Vec<Object>, login_name: &str) -> (r: Option<&'a Object>)
    requires
        forall|i: int| 0 <= i < objects@.len() ==> (#[trigger] objects@[i]).wf(),
    ensures
        match r {
            Some(o) => first_player(objects@, login_name@) == Some(*o),
            None => first_player(objects@, login_name@) is None,
        },
{
    let mut i: usize = 0;
    assert(objects@.skip(0) =~= objects@);
    while i < objects.len()
        invariant
            0 <= i <= objects@.len(),
            forall|j: int| 0 <= j < objects@.len() ==> (#[trigger] objects@[j]).wf(),
            first_player(objects@, login_name@) == first_player(objects@.skip(i as int), login_name@),
        decreases objects@.len() - i,
    {
        let ghost rest = objects@.skip(i as int);
        assert(rest.drop_first() =~= objects@.skip(i + 1));
        assert(rest[0] == objects@[i as int]);
        let o = &objects[i];
        if !o.is_deleted && player_login_name_matches(o, login_name) {
            return Some(o);
        }
        i += 1;
    }
    None
}

} // verus!
