//! Declarative MUDL place and object definitions (the legacy `key: value` block format).

use vstd::prelude::*;

use super::lines::comment_free;
use super::trigger_def::{parse_trigger_line, trigger_of, TriggerDef, TriggerDefView};
use crate::assoc::{insert_entry, table, unique_keys};
use crate::text::{
    first_piece, has_prefix, lines, lower_case_of, owned, split_char, split_lines, split_on,
    split_once, split_once_str, starts_with, str_eq, str_to_lowercase, strip_prefix, trim, trim_seq,
    views,
};

verus! {

/// Parsed object/room definition from declarative MUDL files.
#[derive(Debug, Clone)]
pub struct WorldDef {
    pub obj_type: String,
    pub base_name: String,
    pub name: String,
    pub description: Option<String>,
    /// Exit name → destination base name, one entry per exit.
    pub exits: Vec<(String, String)>,
    /// Player-facing alias → canonical exit name on this place.
    pub exit_aliases: Vec<(String, String)>,
    /// Canonical exit name → return exit name on the destination place.
    pub exit_returns: Vec<(String, String)>,
    pub location: Option<String>,
    pub starting_location: Option<String>,
    /// When set, leaving via `scatter_direction` sends the player to one of these places.
    pub scatter_to: Vec<String>,
    pub scatter_direction: Option<String>,
    /// When set, entering this place silently sends the player to the named place.
    pub loop_to: Option<String>,
    /// `@trigger` scripts attached to this place.
    pub triggers: Vec<TriggerDef>,
}

pub struct WorldDefView {
    pub obj_type: Seq<char>,
    pub base_name: Seq<char>,
    pub name: Seq<char>,
    pub description: Option<Seq<char>>,
    pub exits: Map<Seq<char>, Seq<char>>,
    pub exit_aliases: Map<Seq<char>, Seq<char>>,
    pub exit_returns: Map<Seq<char>, Seq<char>>,
    pub location: Option<Seq<char>>,
    pub starting_location: Option<Seq<char>>,
    pub scatter_to: Seq<Seq<char>>,
    pub scatter_direction: Option<Seq<char>>,
    pub loop_to: Option<Seq<char>>,
    pub triggers: Seq<TriggerDefView>,
}

/// The characters of an optional string.
pub open spec fn opt_view(o: Option<String>) -> Option<Seq<char>> {
    match o {
        Some(s) => Some(s@),
        None => None,
    }
}

/// A keyed list of string pairs read as a map.
pub open spec fn pair_table(v: Seq<(String, String)>) -> Map<Seq<char>, Seq<char>> {
    table(v).map_values(|e: (String, String)| e.1@)
}

/// The views of a list of triggers.
pub open spec fn trigger_views(v: Seq<TriggerDef>) -> Seq<TriggerDefView> {
    v.map_values(|t: TriggerDef| t@)
}

impl View for WorldDef {
    type V = WorldDefView;

    open spec fn view(&self) -> WorldDefView {
        WorldDefView {
            obj_type: self.obj_type@,
            base_name: self.base_name@,
            name: self.name@,
            description: opt_view(self.description),
            exits: pair_table(self.exits@),
            exit_aliases: pair_table(self.exit_aliases@),
            exit_returns: pair_table(self.exit_returns@),
            location: opt_view(self.location),
            starting_location: opt_view(self.starting_location),
            scatter_to: views(self.scatter_to@),
            scatter_direction: opt_view(self.scatter_direction),
            loop_to: opt_view(self.loop_to),
            triggers: trigger_views(self.triggers@),
        }
    }
}

impl WorldDef {
    /// Each exit, alias and return name occurs once.
    pub open spec fn wf(&self) -> bool {
        &&& unique_keys(self.exits@)
        &&& unique_keys(self.exit_aliases@)
        &&& unique_keys(self.exit_returns@)
    }
}

/// Which `name: value` table the lines being read fill.
#[derive(Clone, Copy, PartialEq, Eq, Structural)]
pub enum Section {
    Plain,
    Exits,
    Aliases,
    Returns,
}

/// A definition with nothing read yet.
pub open spec fn blank_def() -> WorldDefView {
    WorldDefView {
        obj_type: "room"@,
        base_name: "unknown"@,
        name: "Unknown"@,
        description: None,
        exits: Map::empty(),
        exit_aliases: Map::empty(),
        exit_returns: Map::empty(),
        location: None,
        starting_location: None,
        scatter_to: Seq::empty(),
        scatter_direction: None,
        loop_to: None,
        triggers: Seq::empty(),
    }
}

/// What has been read so far: finished definitions, the starting location a
/// `config` block named, the definition being read, and the open table.
pub struct WorldRead {
    pub defs: Seq<WorldDefView>,
    pub start: Option<Seq<char>>,
    pub cur: WorldDefView,
    pub section: Section,
}

/// Ends the definition being read: a `config` block sets the starting location,
/// any other named block is kept. Unnamed blocks are left open.
pub open spec fn flush(st: WorldRead) -> WorldRead {
    if st.cur.base_name == "unknown"@ {
        st
    } else if st.cur.obj_type == "config"@ {
        WorldRead { defs: st.defs, start: st.cur.starting_location, cur: blank_def(), section: Section::Plain }
    } else {
        WorldRead { defs: st.defs.push(st.cur), start: st.start, cur: blank_def(), section: Section::Plain }
    }
}

/// Lines that belong to other MUDL block kinds and are skipped here.
pub open spec fn foreign_line(t: Seq<char>) -> bool {
    ||| has_prefix(t, "#"@)
    ||| has_prefix(t, "//"@)
    ||| has_prefix(t, "@include"@)
    ||| has_prefix(t, "@import"@)
    ||| has_prefix(t, "@expansion"@)
    ||| has_prefix(t, "@universe"@)
    ||| has_prefix(t, "@world"@)
    ||| has_prefix(t, "@creature"@)
    ||| has_prefix(t, "@body-plan"@)
    ||| has_prefix(t, "@player-template"@)
    ||| has_prefix(t, "@npc"@)
    ||| has_prefix(t, "@spawner"@)
    ||| has_prefix(t, "@spawn-template"@)
    ||| has_prefix(t, "@loot-spawner"@)
    ||| has_prefix(t, "@loot-template"@)
    ||| has_prefix(t, "@entry "@)
    ||| has_prefix(t, "@behavior"@)
    ||| has_prefix(t, "@stat"@)
    ||| has_prefix(t, "@skill"@)
    ||| has_prefix(t, "@effect"@)
    ||| has_prefix(t, "@slot"@)
    ||| has_prefix(t, "@prototype "@)
    ||| has_prefix(t, "@item "@)
    ||| t == "@end"@
}

/// The places of a `scatter_to:` list: comma-separated, trimmed, blanks dropped.
pub open spec fn scatter_list(value: Seq<char>) -> Seq<Seq<char>> {
    split_char(value, ',').map_values(|s: Seq<char>| trim_seq(s)).filter(|s: Seq<char>| s.len() > 0)
}

/// A `name: value` line whose key is `key` (trimmed, lower case), read into `st`.
pub open spec fn world_setting(st: WorldRead, raw_key: Seq<char>, value: Seq<char>) -> WorldRead {
    let key = lower_case_of(trim_seq(raw_key));
    let c = st.cur;
    if key == "scatter_to"@ {
        WorldRead { cur: WorldDefView { scatter_to: scatter_list(value), ..c }, section: Section::Plain, ..st }
    } else if key == "scatter_direction"@ {
        WorldRead { cur: WorldDefView { scatter_direction: Some(value), ..c }, section: Section::Plain, ..st }
    } else if key == "loop_to"@ {
        WorldRead { cur: WorldDefView { loop_to: Some(value), ..c }, section: Section::Plain, ..st }
    } else if st.section == Section::Exits {
        WorldRead { cur: WorldDefView { exits: c.exits.insert(trim_seq(raw_key), value), ..c }, ..st }
    } else if st.section == Section::Aliases {
        WorldRead {
            cur: WorldDefView { exit_aliases: c.exit_aliases.insert(trim_seq(raw_key), value), ..c },
            ..st
        }
    } else if st.section == Section::Returns {
        WorldRead {
            cur: WorldDefView { exit_returns: c.exit_returns.insert(trim_seq(raw_key), value), ..c },
            ..st
        }
    } else {
        let c2 = if key == "type"@ {
            WorldDefView { obj_type: value, ..c }
        } else if key == "base_name"@ {
            WorldDefView { base_name: value, ..c }
        } else if key == "name"@ {
            WorldDefView { name: value, ..c }
        } else if key == "description"@ {
            WorldDefView { description: Some(value), ..c }
        } else if key == "location"@ {
            WorldDefView { location: Some(value), ..c }
        } else if key == "starting_location"@ {
            WorldDefView { starting_location: Some(value), ..c }
        } else {
            c
        };
        WorldRead { cur: c2, section: Section::Plain, ..st }
    }
}

/// One source line read into `st`.
pub open spec fn world_step(st: WorldRead, raw: Seq<char>) -> WorldRead {
    let t = comment_free(raw);
    if t.len() == 0 {
        flush(st)
    } else if foreign_line(t) {
        st
    } else if has_prefix(t, "@trigger "@) {
        let cur = match trigger_of(t.skip(9)) {
            Some(tr) => WorldDefView { triggers: st.cur.triggers.push(tr), ..st.cur },
            None => st.cur,
        };
        WorldRead { cur, section: Section::Plain, ..st }
    } else if t == "exits:"@ {
        WorldRead { section: Section::Exits, ..st }
    } else if t == "exit_aliases:"@ {
        WorldRead { section: Section::Aliases, ..st }
    } else if t == "exit_returns:"@ {
        WorldRead { section: Section::Returns, ..st }
    } else {
        match split_once(t, ":"@) {
            Some((k, v)) => world_setting(st, k, trim_seq(v)),
            None => st,
        }
    }
}

/// The state after reading `ls` in order.
pub open spec fn world_fold(ls: Seq<Seq<char>>) -> WorldRead
    decreases ls.len(),
{
    if ls.len() == 0 {
        WorldRead { defs: Seq::empty(), start: None, cur: blank_def(), section: Section::Plain }
    } else {
        world_step(world_fold(ls.drop_last()), ls.last())
    }
}

/// The definitions of a MUDL source and the starting location its `config` block names.
pub open spec fn world_of(content: Seq<char>) -> (Seq<WorldDefView>, Option<Seq<char>>) {
    let st = flush(world_fold(lines(content)));
    (st.defs, st.start)
}

/// The views of a list of definitions.
pub open spec fn def_views(v: Seq<WorldDef>) -> Seq<WorldDefView> {
    v.map_values(|d: WorldDef| d@)
}

/// Every definition of `v` is well formed.
pub open spec fn all_wf(v: Seq<WorldDef>) -> bool {
    forall|i: int| 0 <= i < v.len() ==> (#[trigger] v[i]).wf()
}

/// The exec state matches `st`.
pub open spec fn reads_as(
    defs: Seq<WorldDef>,
    start: Option<String>,
    cur: WorldDef,
    section: Section,
    st: WorldRead,
) -> bool {
    &&& def_views(defs) == st.defs
    &&& opt_view(start) == st.start
    &&& cur@ == st.cur
    &&& section == st.section
    &&& all_wf(defs)
    &&& cur.wf()
}

fn blank() -> (r: WorldDef)
    ensures
        r@ == blank_def(),
        r.wf(),
{
    let r = WorldDef {
        obj_type: owned("room"),
        base_name: owned("unknown"),
        name: owned("Unknown"),
        description: None,
        exits: Vec::new(),
        exit_aliases: Vec::new(),
        exit_returns: Vec::new(),
        location: None,
        starting_location: None,
        scatter_to: Vec::new(),
        scatter_direction: None,
        loop_to: None,
        triggers: Vec::new(),
    };
    assert(r@.exits =~= Map::<Seq<char>, Seq<char>>::empty());
    assert(r@.exit_aliases =~= Map::<Seq<char>, Seq<char>>::empty());
    assert(r@.exit_returns =~= Map::<Seq<char>, Seq<char>>::empty());
    assert(r@.scatter_to =~= Seq::<Seq<char>>::empty());
    assert(r@.triggers =~= Seq::<TriggerDefView>::empty());
    r
}

fn copy_opt(o: &Option<String>) -> (r: Option<String>)
    ensures
        opt_view(r) == opt_view(*o),
{
    match o {
        Some(s) => Some(s.clone()),
        None => None,
    }
}

/// Ends the definition being read (see [`flush`]).
fn flush_def(defs: &mut Vec<WorldDef>, start: &mut Option<String>, cur: &mut WorldDef, section: &mut Section)
    requires
        all_wf(old(defs)@),
        old(cur).wf(),
    ensures
        reads_as(
            final(defs)@,
            *final(start),
            *final(cur),
            *final(section),
            flush(WorldRead { defs: def_views(old(defs)@), start: opt_view(*old(start)), cur: old(cur)@, section: *old(section) }),
        ),
{
    proof {
        reveal_strlit("unknown");
        reveal_strlit("config");
    }
    if str_eq(cur.base_name.as_str(), "unknown") {
        return;
    }
    if str_eq(cur.obj_type.as_str(), "config") {
        *start = copy_opt(&cur.starting_location);
        *cur = blank();
    } else {
        let mut done = blank();
        std::mem::swap(&mut done, cur);
        let ghost before = def_views(defs@);
        let ghost dv = done@;
        defs.push(done);
        assert(def_views(defs@) =~= before.push(dv));
    }
    *section = Section::Plain;
}

/// Whether a line belongs to another block kind (see [`foreign_line`]).
fn is_foreign(t: &str) -> (r: bool)
    ensures
        r == foreign_line(t@),
{
    starts_with(t, "#") || starts_with(t, "//") || starts_with(t, "@include") || starts_with(
        t,
        "@import",
    ) || starts_with(t, "@expansion") || starts_with(t, "@universe") || starts_with(t, "@world")
        || starts_with(t, "@creature") || starts_with(t, "@body-plan") || starts_with(
        t,
        "@player-template",
    ) || starts_with(t, "@npc") || starts_with(t, "@spawner") || starts_with(t, "@spawn-template")
        || starts_with(t, "@loot-spawner") || starts_with(t, "@loot-template") || starts_with(
        t,
        "@entry ",
    ) || starts_with(t, "@behavior") || starts_with(t, "@stat") || starts_with(t, "@skill")
        || starts_with(t, "@effect") || starts_with(t, "@slot") || starts_with(t, "@prototype ")
        || starts_with(t, "@item ") || str_eq(t, "@end")
}

/// The places of a `scatter_to:` list.
fn parse_scatter(value: &str) -> (r: Vec<String>)
    ensures
        views(r@) == scatter_list(value@),
{
    let parts = split_on(value, ',');
    let ghost mapped = split_char(value@, ',').map_values(|s: Seq<char>| trim_seq(s));
    let ghost pred = |s: Seq<char>| s.len() > 0;
    let mut out: Vec<String> = Vec::new();
    let mut i: usize = 0;
    while i < parts.len()
        invariant
            0 <= i <= parts@.len(),
            views(parts@) == split_char(value@, ','),
            mapped == split_char(value@, ',').map_values(|s: Seq<char>| trim_seq(s)),
            pred == (|s: Seq<char>| s.len() > 0),
            views(out@) == mapped.take(i as int).filter(pred),
        decreases parts@.len() - i,
    {
        let t = trim(parts[i].as_str());
        assert(t@ == mapped[i as int]);
        assert(mapped.take(i + 1) =~= mapped.take(i as int).push(t@));
        proof {
            mapped.take(i as int).lemma_filter_push(t@, pred);
        }
        if t.unicode_len() > 0 {
            let ghost before = views(out@);
            out.push(owned(t));
            assert(views(out@) =~= before.push(t@));
        }
        i += 1;
    }
    assert(mapped.take(parts@.len() as int) =~= mapped);
    out
}

/// Adds `name → value` to a keyed pair list.
fn put_pair(v: &mut Vec<(String, String)>, name: &str, value: &str)
    requires
        unique_keys(old(v)@),
    ensures
        unique_keys(final(v)@),
        pair_table(final(v)@) == pair_table(old(v)@).insert(name@, value@),
{
    let ghost t0 = table(v@);
    insert_entry(v, (owned(name), owned(value)));
    assert(pair_table(v@) =~= pair_table(old(v)@).insert(name@, value@));
}

/// A `name: value` line (see [`world_setting`]).
fn apply_world_setting(cur: &mut WorldDef, section: &mut Section, raw_key: &str, value: &str)
    requires
        old(cur).wf(),
    ensures
        final(cur).wf(),
        ({
            let st = WorldRead { defs: Seq::empty(), start: None, cur: old(cur)@, section: *old(section) };
            let st2 = world_setting(st, raw_key@, value@);
            final(cur)@ == st2.cur && *final(section) == st2.section
        }),
{
    proof {
        reveal_strlit("scatter_to");
        reveal_strlit("scatter_direction");
        reveal_strlit("loop_to");
        reveal_strlit("type");
        reveal_strlit("base_name");
        reveal_strlit("name");
        reveal_strlit("description");
        reveal_strlit("location");
        reveal_strlit("starting_location");
    }
    let k = trim(raw_key);
    let lowered = str_to_lowercase(k);
    let key = lowered.as_str();
    if str_eq(key, "scatter_to") {
        cur.scatter_to = parse_scatter(value);
        *section = Section::Plain;
    } else if str_eq(key, "scatter_direction") {
        cur.scatter_direction = Some(owned(value));
        *section = Section::Plain;
    } else if str_eq(key, "loop_to") {
        cur.loop_to = Some(owned(value));
        *section = Section::Plain;
    } else if *section == Section::Exits {
        put_pair(&mut cur.exits, k, value);
    } else if *section == Section::Aliases {
        put_pair(&mut cur.exit_aliases, k, value);
    } else if *section == Section::Returns {
        put_pair(&mut cur.exit_returns, k, value);
    } else {
        if str_eq(key, "type") {
            cur.obj_type = owned(value);
        } else if str_eq(key, "base_name") {
            cur.base_name = owned(value);
        } else if str_eq(key, "name") {
            cur.name = owned(value);
        } else if str_eq(key, "description") {
            cur.description = Some(owned(value));
        } else if str_eq(key, "location") {
            cur.location = Some(owned(value));
        } else if str_eq(key, "starting_location") {
            cur.starting_location = Some(owned(value));
        }
        *section = Section::Plain;
    }
}

/// Reads one source line (see [`world_step`]).
fn world_line(
    defs: &mut Vec<WorldDef>,
    start: &mut Option<String>,
    cur: &mut WorldDef,
    section: &mut Section,
    raw: &str,
)
    requires
        all_wf(old(defs)@),
        old(cur).wf(),
    ensures
        reads_as(
            final(defs)@,
            *final(start),
            *final(cur),
            *final(section),
            world_step(
                WorldRead { defs: def_views(old(defs)@), start: opt_view(*old(start)), cur: old(cur)@, section: *old(section) },
                raw@,
            ),
        ),
{
    proof {
        reveal_strlit("@trigger ");
        reveal_strlit("exits:");
        reveal_strlit("exit_aliases:");
        reveal_strlit("exit_returns:");
    }
    let t = trim(first_piece(raw, ';'));
    if t.unicode_len() == 0 {
        flush_def(defs, start, cur, section);
        return;
    }
    if is_foreign(t) {
        return;
    }
    if let Some(rest) = strip_prefix(t, "@trigger ") {
        assert(rest@ =~= t@.skip(9));
        *section = Section::Plain;
        if let Some(tr) = parse_trigger_line(rest) {
            let ghost before = trigger_views(cur.triggers@);
            let ghost tv = tr@;
            cur.triggers.push(tr);
            assert(trigger_views(cur.triggers@) =~= before.push(tv));
        }
        return;
    }
    if str_eq(t, "exits:") {
        *section = Section::Exits;
        return;
    }
    if str_eq(t, "exit_aliases:") {
        *section = Section::Aliases;
        return;
    }
    if str_eq(t, "exit_returns:") {
        *section = Section::Returns;
        return;
    }
    if let Some((k, v)) = split_once_str(t, ":") {
        apply_world_setting(cur, section, k, trim(v));
    }
}

/// Every definition in `defs` is a named block that is not a `config` block.
pub open spec fn named_defs(defs: Seq<WorldDefView>) -> bool {
    forall|i: int|
        0 <= i < defs.len() ==> (#[trigger] defs[i]).base_name != "unknown"@ && defs[i].obj_type != "config"@
}

proof fn lemma_step_keeps_named(st: WorldRead, raw: Seq<char>)
    requires
        named_defs(st.defs),
    ensures
        named_defs(world_step(st, raw).defs),
        named_defs(flush(st).defs),
{
    let f = flush(st);
    assert(named_defs(f.defs)) by {
        if st.cur.base_name != "unknown"@ && st.cur.obj_type != "config"@ {
            assert forall|i: int| 0 <= i < f.defs.len() implies (#[trigger] f.defs[i]).base_name
                != "unknown"@ && f.defs[i].obj_type != "config"@ by {
                if i < st.defs.len() {
                    assert(f.defs[i] == st.defs[i]);
                }
            }
        }
    }
    let t = comment_free(raw);
    if t.len() != 0 && !foreign_line(t) && !has_prefix(t, "@trigger "@) && t != "exits:"@
        && t != "exit_aliases:"@ && t != "exit_returns:"@ {
        match split_once(t, ":"@) {
            Some((k, v)) => {
                assert(world_setting(st, k, trim_seq(v)).defs == st.defs);
            },
            None => {},
        }
    }
}

proof fn lemma_fold_named(ls: Seq<Seq<char>>)
    ensures
        named_defs(world_fold(ls).defs),
    decreases ls.len(),
{
    if ls.len() > 0 {
        lemma_fold_named(ls.drop_last());
        lemma_step_keeps_named(world_fold(ls.drop_last()), ls.last());
    }
}

/// No definition read from a MUDL source is an unnamed block or a `config`
/// block: unnamed blocks are dropped, and a `config` block only names the
/// starting location.
pub proof fn law_world_defs_named(content: Seq<char>)
    ensures
        named_defs(world_of(content).0),
{
    let st = world_fold(lines(content));
    lemma_fold_named(lines(content));
    lemma_step_keeps_named(st, Seq::empty());
}

/// A line that starts with none of `#`, `/`, `@` is no block or comment line.
proof fn lemma_plain_line(t: Seq<char>)
    requires
        t.len() > 0,
        t[0] != '#' && t[0] != '/' && t[0] != '@',
    ensures
        !foreign_line(t),
        !has_prefix(t, "@trigger "@),
{
    reveal_strlit("#");
    reveal_strlit("//");
    reveal_strlit("@include");
    reveal_strlit("@import");
    reveal_strlit("@expansion");
    reveal_strlit("@universe");
    reveal_strlit("@world");
    reveal_strlit("@creature");
    reveal_strlit("@body-plan");
    reveal_strlit("@player-template");
    reveal_strlit("@npc");
    reveal_strlit("@spawner");
    reveal_strlit("@spawn-template");
    reveal_strlit("@loot-spawner");
    reveal_strlit("@loot-template");
    reveal_strlit("@entry ");
    reveal_strlit("@behavior");
    reveal_strlit("@stat");
    reveal_strlit("@skill");
    reveal_strlit("@effect");
    reveal_strlit("@slot");
    reveal_strlit("@prototype ");
    reveal_strlit("@item ");
    reveal_strlit("@end");
    reveal_strlit("@trigger ");
    assert("#"@.len() > 0 && "#"@[0] == '#');
    assert("//"@.len() > 0 && "//"@[0] == '/');
    assert("@include"@.len() > 0 && "@include"@[0] == '@');
    assert("@import"@.len() > 0 && "@import"@[0] == '@');
    assert("@expansion"@.len() > 0 && "@expansion"@[0] == '@');
    assert("@universe"@.len() > 0 && "@universe"@[0] == '@');
    assert("@world"@.len() > 0 && "@world"@[0] == '@');
    assert("@creature"@.len() > 0 && "@creature"@[0] == '@');
    assert("@body-plan"@.len() > 0 && "@body-plan"@[0] == '@');
    assert("@player-template"@.len() > 0 && "@player-template"@[0] == '@');
    assert("@npc"@.len() > 0 && "@npc"@[0] == '@');
    assert("@spawner"@.len() > 0 && "@spawner"@[0] == '@');
    assert("@spawn-template"@.len() > 0 && "@spawn-template"@[0] == '@');
    assert("@loot-spawner"@.len() > 0 && "@loot-spawner"@[0] == '@');
    assert("@loot-template"@.len() > 0 && "@loot-template"@[0] == '@');
    assert("@entry "@.len() > 0 && "@entry "@[0] == '@');
    assert("@behavior"@.len() > 0 && "@behavior"@[0] == '@');
    assert("@stat"@.len() > 0 && "@stat"@[0] == '@');
    assert("@skill"@.len() > 0 && "@skill"@[0] == '@');
    assert("@effect"@.len() > 0 && "@effect"@[0] == '@');
    assert("@slot"@.len() > 0 && "@slot"@[0] == '@');
    assert("@prototype "@.len() > 0 && "@prototype "@[0] == '@');
    assert("@item "@.len() > 0 && "@item "@[0] == '@');
    assert("@end"@.len() > 0 && "@end"@[0] == '@');
    assert("@trigger "@.len() > 0 && "@trigger "@[0] == '@');
    assert forall|p: Seq<char>| p.len() > 0 && has_prefix(t, p) implies t[0] == p[0] by {
        assert(t.subrange(0, p.len() as int)[0] == t[0]);
    }
}

/// Outside the exit tables, a `key: value` line whose key is one of a
/// definition's own fields (`type`, `base_name`, `name`, `description`,
/// `location`, `starting_location`; case ignored) sets that field of the
/// definition being read to the trimmed value, and leaves its other fields,
/// the open table and the finished definitions as they were.
pub proof fn law_world_field_line(st: WorldRead, raw: Seq<char>, k: Seq<char>, v: Seq<char>)
    requires
        st.section == Section::Plain,
        split_once(comment_free(raw), ":"@) == Some((k, v)),
        comment_free(raw).len() > 0,
        comment_free(raw)[0] != '#' && comment_free(raw)[0] != '/' && comment_free(raw)[0] != '@',
        comment_free(raw) != "exits:"@ && comment_free(raw) != "exit_aliases:"@ && comment_free(raw)
            != "exit_returns:"@,
        ({
            let key = lower_case_of(trim_seq(k));
            key == "type"@ || key == "base_name"@ || key == "name"@ || key == "description"@ || key
                == "location"@ || key == "starting_location"@
        }),
    ensures
        ({
            let key = lower_case_of(trim_seq(k));
            let value = trim_seq(v);
            let next = world_step(st, raw);
            let c = st.cur;
            let n = next.cur;
            &&& next.defs == st.defs
            &&& next.start == st.start
            &&& next.section == Section::Plain
            &&& n.obj_type == (if key == "type"@ { value } else { c.obj_type })
            &&& n.base_name == (if key == "base_name"@ { value } else { c.base_name })
            &&& n.name == (if key == "name"@ { value } else { c.name })
            &&& n.description == (if key == "description"@ { Some(value) } else { c.description })
            &&& n.location == (if key == "location"@ { Some(value) } else { c.location })
            &&& n.starting_location == (if key == "starting_location"@ { Some(value) } else { c.starting_location })
            &&& n.exits == c.exits
            &&& n.exit_aliases == c.exit_aliases
            &&& n.exit_returns == c.exit_returns
            &&& n.scatter_to == c.scatter_to
            &&& n.triggers == c.triggers
        }),
{
    lemma_plain_line(comment_free(raw));
    reveal_strlit("type");
    reveal_strlit("base_name");
    reveal_strlit("name");
    reveal_strlit("description");
    reveal_strlit("location");
    reveal_strlit("starting_location");
    reveal_strlit("scatter_to");
    reveal_strlit("scatter_direction");
    reveal_strlit("loop_to");
    assert("type"@.len() == 4 && "base_name"@.len() == 9 && "name"@.len() == 4 && "description"@.len() == 11
        && "location"@.len() == 8 && "starting_location"@.len() == 17 && "scatter_to"@.len() == 10
        && "scatter_direction"@.len() == 17 && "loop_to"@.len() == 7);
    assert("type"@[0] != "name"@[0]);
    assert("starting_location"@[1] != "scatter_direction"@[1]);
}

/// Inside an exit table (`exits:`, `exit_aliases:` or `exit_returns:`), a
/// `name: value` line whose key is not one of the scatter or loop settings
/// adds the trimmed value under the trimmed name to that table, replacing an
/// earlier entry of that name; the other tables, the definition's fields and
/// the open table stay as they were.
pub proof fn law_exit_table_line(st: WorldRead, raw: Seq<char>, k: Seq<char>, v: Seq<char>)
    requires
        st.section != Section::Plain,
        split_once(comment_free(raw), ":"@) == Some((k, v)),
        comment_free(raw).len() > 0,
        comment_free(raw)[0] != '#' && comment_free(raw)[0] != '/' && comment_free(raw)[0] != '@',
        comment_free(raw) != "exits:"@ && comment_free(raw) != "exit_aliases:"@ && comment_free(raw)
            != "exit_returns:"@,
        ({
            let key = lower_case_of(trim_seq(k));
            key != "scatter_to"@ && key != "scatter_direction"@ && key != "loop_to"@
        }),
    ensures
        ({
            let name = trim_seq(k);
            let value = trim_seq(v);
            let next = world_step(st, raw);
            let c = st.cur;
            let n = next.cur;
            &&& next.defs == st.defs
            &&& next.section == st.section
            &&& n.exits == (if st.section == Section::Exits { c.exits.insert(name, value) } else { c.exits })
            &&& n.exit_aliases == (if st.section == Section::Aliases {
                c.exit_aliases.insert(name, value)
            } else {
                c.exit_aliases
            })
            &&& n.exit_returns == (if st.section == Section::Returns {
                c.exit_returns.insert(name, value)
            } else {
                c.exit_returns
            })
            &&& n.name == c.name
            &&& n.base_name == c.base_name
            &&& n.description == c.description
        }),
{
    lemma_plain_line(comment_free(raw));
}

/// A blank line (after dropping a `;` comment) ends the definition being
/// read: an unnamed one stays open; a `config` block names the starting
/// location and is not kept; any other named block is added after the
/// finished ones. Either way a new definition starts outside any table.
pub proof fn law_blank_line_ends_definition(st: WorldRead, raw: Seq<char>)
    requires
        comment_free(raw).len() == 0,
    ensures
        ({
            let next = world_step(st, raw);
            if st.cur.base_name == "unknown"@ {
                next == st
            } else {
                &&& next.section == Section::Plain
                &&& next.cur.base_name == "unknown"@
                &&& next.cur.exits.dom().len() == 0
                &&& if st.cur.obj_type == "config"@ {
                    next.defs == st.defs && next.start == st.cur.starting_location
                } else {
                    next.defs == st.defs.push(st.cur) && next.start == st.start
                }
            }
        }),
{
    assert(Map::<Seq<char>, Seq<char>>::empty().dom() =~= Set::<Seq<char>>::empty());
}

/// Parse room/object definitions from MUDL source (legacy declarative format),
/// with the starting location a `config` block names.
pub fn parse_world_file(content: &str) -> (r: (Vec<WorldDef>, Option<String>))
    ensures
        (def_views(r.0@), opt_view(r.1)) == world_of(content@),
        all_wf(r.0@),
{
    let ls = split_lines(content);
    let mut defs: Vec<WorldDef> = Vec::new();
    let mut start: Option<String> = None;
    let mut cur = blank();
    let mut section = Section::Plain;
    let mut i: usize = 0;
    assert(def_views(defs@) =~= Seq::<WorldDefView>::empty());
    while i < ls.len()
        invariant
            0 <= i <= ls@.len(),
            views(ls@) == lines(content@),
            reads_as(defs@, start, cur, section, world_fold(views(ls@).take(i as int))),
        decreases ls@.len() - i,
    {
        let ghost ws = views(ls@);
        assert(ws.take(i + 1).drop_last() =~= ws.take(i as int));
        assert(ws.take(i + 1).last() == ls@[i as int]@);
        world_line(&mut defs, &mut start, &mut cur, &mut section, ls[i].as_str());
        i += 1;
    }
    assert(views(ls@).take(ls@.len() as int) =~= views(ls@));
    flush_def(&mut defs, &mut start, &mut cur, &mut section);
    (defs, start)
}

} // verus!
