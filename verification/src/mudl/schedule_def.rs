//! MUDL `@schedule` definitions — periodic timed events on rooms and objects.

use vstd::prelude::*;

use super::lines::{comment_free, key_value, split_key_value, strip_comment};
use crate::text::{
    has_prefix, lines, lower_case_of, owned, parse_u32, parse_unsigned, split_lines, str_eq,
    str_to_lowercase, strip_prefix, trim, trim_seq, views,
};

verus! {

/// A recurring schedule that fires a named event every N scope ticks.
#[derive(Debug, Clone, PartialEq, Eq)]
pub struct ScheduleDef {
    pub base_name: String,
    pub target: String,
    pub interval: u32,
    pub event: String,
}

pub struct ScheduleView {
    pub base_name: Seq<char>,
    pub target: Seq<char>,
    pub interval: u32,
    pub event: Seq<char>,
}

impl View for ScheduleDef {
    type V = ScheduleView;

    open spec fn view(&self) -> ScheduleView {
        ScheduleView {
            base_name: self.base_name@,
            target: self.target@,
            interval: self.interval,
            event: self.event@,
        }
    }
}

/// A `key=value` setting applied to the open schedule.
pub open spec fn schedule_setting(s: ScheduleView, key: Seq<char>, value: Seq<char>) -> ScheduleView {
    if key == "target"@ || key == "location"@ || key == "attach"@ {
        ScheduleView { target: value, ..s }
    } else if key == "interval"@ || key == "every"@ || key == "periodic_interval"@ {
        let n = match parse_unsigned(value, u32::MAX as nat) {
            Some(v) => v,
            None => 1,
        };
        ScheduleView { interval: if n < 1 { 1 } else { n as u32 }, ..s }
    } else if key == "event"@ || key == "on_tick"@ || key == "trigger"@ {
        ScheduleView { event: lower_case_of(value), ..s }
    } else {
        s
    }
}

/// The finished schedules with the open one closed.
pub open spec fn close_schedule(done: Seq<ScheduleView>, cur: Option<ScheduleView>) -> Seq<ScheduleView> {
    match cur {
        Some(s) => done.push(s),
        None => done,
    }
}

/// One source line read into the schedules finished so far and the open one.
pub open spec fn schedule_step(done: Seq<ScheduleView>, cur: Option<ScheduleView>, raw: Seq<char>) -> (
    Seq<ScheduleView>,
    Option<ScheduleView>,
) {
    let line = comment_free(raw);
    if line.len() == 0 {
        (done, cur)
    } else if line == "@end"@ {
        (close_schedule(done, cur), None)
    } else if has_prefix(line, "@schedule "@) {
        (
            close_schedule(done, cur),
            Some(ScheduleView { base_name: trim_seq(line.skip(10)), target: Seq::empty(), interval: 1, event: Seq::empty() }),
        )
    } else {
        match key_value(line) {
            Some((key, value)) => match cur {
                Some(s) => (done, Some(schedule_setting(s, key, value))),
                None => (done, None),
            },
            None => (done, cur),
        }
    }
}

/// The state after reading `ls` in order.
pub open spec fn schedule_fold(ls: Seq<Seq<char>>) -> (Seq<ScheduleView>, Option<ScheduleView>)
    decreases ls.len(),
{
    if ls.len() == 0 {
        (Seq::empty(), None)
    } else {
        let (done, cur) = schedule_fold(ls.drop_last());
        schedule_step(done, cur, ls.last())
    }
}

/// The schedules of a MUDL source, in order.
pub open spec fn schedules_of(content: Seq<char>) -> Seq<ScheduleView> {
    let (done, cur) = schedule_fold(lines(content));
    close_schedule(done, cur)
}

pub open spec fn schedule_views(v: Seq<ScheduleDef>) -> Seq<ScheduleView> {
    v.map_values(|s: ScheduleDef| s@)
}

pub open spec fn open_schedule(o: Option<ScheduleDef>) -> Option<ScheduleView> {
    match o {
        Some(s) => Some(s@),
        None => None,
    }
}

fn close_open(done: &mut Vec<ScheduleDef>, cur: &mut Option<ScheduleDef>)
    ensures
        schedule_views(final(done)@) == close_schedule(schedule_views(old(done)@), open_schedule(*old(cur))),
        *final(cur) is None,
{
    if let Some(s) = cur.take() {
        let ghost before = schedule_views(done@);
        let ghost sv = s@;
        done.push(s);
        assert(schedule_views(done@) =~= before.push(sv));
    }
}

fn apply_setting(s: &mut ScheduleDef, key: &str, value: &str)
    ensures
        final(s)@ == schedule_setting(old(s)@, key@, value@),
{
    if str_eq(key, "target") || str_eq(key, "location") || str_eq(key, "attach") {
        s.target = owned(value);
    } else if str_eq(key, "interval") || str_eq(key, "every") || str_eq(key, "periodic_interval") {
        let n = match parse_u32(value) {
            Some(v) => v,
            None => 1,
        };
        s.interval = if n < 1 { 1 } else { n };
    } else if str_eq(key, "event") || str_eq(key, "on_tick") || str_eq(key, "trigger") {
        s.event = str_to_lowercase(value);
    }
}

fn schedule_line(done: &mut Vec<ScheduleDef>, cur: &mut Option<ScheduleDef>, raw: &str)
    ensures
        (schedule_views(final(done)@), open_schedule(*final(cur))) == schedule_step(
            schedule_views(old(done)@),
            open_schedule(*old(cur)),
            raw@,
        ),
{
    proof {
        reveal_strlit("@end");
        reveal_strlit("@schedule ");
    }
    let line = strip_comment(raw);
    if line.unicode_len() == 0 {
        return;
    }
    if str_eq(line, "@end") {
        close_open(done, cur);
        return;
    }
    if let Some(name) = strip_prefix(line, "@schedule ") {
        close_open(done, cur);
        *cur = Some(ScheduleDef { base_name: owned(trim(name)), target: String::new(), interval: 1, event: String::new() });
        return;
    }
    if let Some((key, value)) = split_key_value(line) {
        match cur.take() {
            Some(s) => {
                let mut s = s;
                apply_setting(&mut s, key.as_str(), value);
                *cur = Some(s);
            },
            None => {},
        }
    }
}

/// Parse `@schedule` blocks from MUDL source.
pub fn parse_schedule_file(content: &str) -> (r: Vec<ScheduleDef>)
    ensures
        schedule_views(r@) == schedules_of(content@),
{
    let ls = split_lines(content);
    let mut done: Vec<ScheduleDef> = Vec::new();
    let mut cur: Option<ScheduleDef> = None;
    let mut i: usize = 0;
    while i < ls.len()
        invariant
            0 <= i <= ls@.len(),
            views(ls@) == lines(content@),
            (schedule_views(done@), open_schedule(cur)) == schedule_fold(views(ls@).take(i as int)),
        decreases ls@.len() - i,
    {
        let ghost ws = views(ls@);
        assert(ws.take(i + 1).drop_last() =~= ws.take(i as int));
        assert(ws.take(i + 1).last() == ls@[i as int]@);
        schedule_line(&mut done, &mut cur, ls[i].as_str());
        i += 1;
    }
    assert(views(ls@).take(ls@.len() as int) =~= views(ls@));
    close_open(&mut done, &mut cur);
    done
}

/// Every schedule read so far, and the open one, repeats at least every tick.
pub open spec fn intervals_positive(done: Seq<ScheduleView>, cur: Option<ScheduleView>) -> bool {
    &&& forall|i: int| 0 <= i < done.len() ==> (#[trigger] done[i]).interval >= 1
    &&& cur matches Some(s) ==> s.interval >= 1
}

proof fn lemma_schedule_fold_positive(ls: Seq<Seq<char>>)
    ensures
        intervals_positive(schedule_fold(ls).0, schedule_fold(ls).1),
    decreases ls.len(),
{
    if ls.len() > 0 {
        lemma_schedule_fold_positive(ls.drop_last());
        let (done, cur) = schedule_fold(ls.drop_last());
        let (d2, c2) = schedule_step(done, cur, ls.last());
        assert forall|i: int| 0 <= i < d2.len() implies (#[trigger] d2[i]).interval >= 1 by {
            if i < done.len() {
                assert(close_schedule(done, cur)[i] == done[i]);
            }
        }
    }
}

/// Every schedule of a MUDL source repeats at least every tick: an interval
/// below 1 (or unreadable) is read as 1.
pub proof fn law_schedule_intervals_positive(content: Seq<char>)
    ensures
        forall|i: int| 0 <= i < schedules_of(content).len() ==> (#[trigger] schedules_of(content)[i]).interval >= 1,
{
    lemma_schedule_fold_positive(lines(content));
    let (done, cur) = schedule_fold(lines(content));
    assert forall|i: int| 0 <= i < schedules_of(content).len() implies (#[trigger] schedules_of(content)[i]).interval >= 1 by {
        if i < done.len() {
            assert(close_schedule(done, cur)[i] == done[i]);
        }
    }
}

} // verus!
