//! Outgoing IRC actions and an in-memory recorder of them.

use vstd::prelude::*;

use crate::text::{owned, str_eq};

verus! {

/// Outgoing IRC action recorded by [`MockTransport`].
#[derive(Debug, Clone, PartialEq, Eq)]
pub enum OutgoingIrc {
    Privmsg { target: String, text: String },
    Notice { target: String, text: String },
    Join { channel: String },
    Part { channel: String, message: Option<String> },
    Raw(String),
}

/// The texts of the private messages in `log` sent to `target`, in order.
pub open spec fn privmsgs_in(log: Seq<OutgoingIrc>, target: Seq<char>) -> Seq<Seq<char>>
    decreases log.len(),
{
    if log.len() == 0 {
        Seq::empty()
    } else {
        let prev = privmsgs_in(log.drop_last(), target);
        match log.last() {
            OutgoingIrc::Privmsg { target: t, text } => if t@ == target {
                prev.push(text@)
            } else {
                prev
            },
            _ => prev,
        }
    }
}

/// In-memory transport that records all outgoing messages for assertions.
#[derive(Debug, Clone)]
pub struct MockTransport {
    log: Vec<OutgoingIrc>,
}

impl View for MockTransport {
    type V = Seq<OutgoingIrc>;

    closed spec fn view(&self) -> Seq<OutgoingIrc> {
        self.log@
    }
}

impl MockTransport {
    pub fn new() -> (r: Self)
        ensures
            r@.len() == 0,
    {
        MockTransport { log: Vec::new() }
    }

    /// Everything sent so far, in order.
    pub fn recorded(&self) -> (r: Vec<OutgoingIrc>)
        ensures
            r@.len() == self@.len(),
            forall|i: int| 0 <= i < r@.len() ==> #[trigger] r@[i] == self@[i],
    {
        let mut out: Vec<OutgoingIrc> = Vec::new();
        let mut i: usize = 0;
        while i < self.log.len()
            invariant
                0 <= i <= self.log@.len(),
                out@.len() == i,
                forall|j: int| 0 <= j < i ==> #[trigger] out@[j] == self.log@[j],
            decreases self.log@.len() - i,
        {
            out.push(copy_outgoing(&self.log[i]));
            i += 1;
        }
        out
    }

    /// Forgets everything sent so far.
    pub fn clear(&mut self)
        ensures
            final(self)@.len() == 0,
    {
        self.log.clear();
    }

    /// The texts of the private messages sent to `target`, in order.
    pub fn privmsgs_to(&self, target: &str) -> (r: Vec<String>)
        ensures
            crate::text::views(r@) == privmsgs_in(self@, target@),
    {
        let mut out: Vec<String> = Vec::new();
        let mut i: usize = 0;
        while i < self.log.len()
            invariant
                0 <= i <= self.log@.len(),
                crate::text::views(out@) == privmsgs_in(self.log@.take(i as int), target@),
            decreases self.log@.len() - i,
        {
            assert(self.log@.take(i + 1).drop_last() =~= self.log@.take(i as int));
            if let OutgoingIrc::Privmsg { target: t, text } = &self.log[i] {
                if str_eq(t.as_str(), target) {
                    let ghost before = crate::text::views(out@);
                    out.push(text.clone());
                    assert(crate::text::views(out@) =~= before.push(text@));
                }
            }
            i += 1;
        }
        assert(self.log@.take(self.log@.len() as int) =~= self.log@);
        out
    }

    /// The texts of the private messages sent to `channel`, in order.
    pub fn channel_messages(&self, channel: &str) -> (r: Vec<String>)
        ensures
            crate::text::views(r@) == privmsgs_in(self@, channel@),
    {
        self.privmsgs_to(channel)
    }

    /// Records a private message.
    pub fn send_privmsg(&mut self, target: &str, text: &str)
        ensures
            final(self)@.len() == old(self)@.len() + 1,
            forall|i: int| 0 <= i < old(self)@.len() ==> #[trigger] final(self)@[i] == old(self)@[i],
            final(self)@.last() matches OutgoingIrc::Privmsg { target: t, text: x } && t@ == target@
                && x@ == text@,
    {
        self.log.push(OutgoingIrc::Privmsg { target: owned(target), text: owned(text) });
    }

    /// Records a notice.
    pub fn send_notice(&mut self, target: &str, text: &str)
        ensures
            final(self)@.len() == old(self)@.len() + 1,
            forall|i: int| 0 <= i < old(self)@.len() ==> #[trigger] final(self)@[i] == old(self)@[i],
            final(self)@.last() matches OutgoingIrc::Notice { target: t, text: x } && t@ == target@
                && x@ == text@,
    {
        self.log.push(OutgoingIrc::Notice { target: owned(target), text: owned(text) });
    }

    /// Records a channel join.
    pub fn join(&mut self, channel: &str)
        ensures
            final(self)@.len() == old(self)@.len() + 1,
            forall|i: int| 0 <= i < old(self)@.len() ==> #[trigger] final(self)@[i] == old(self)@[i],
            final(self)@.last() matches OutgoingIrc::Join { channel: c } && c@ == channel@,
    {
        self.log.push(OutgoingIrc::Join { channel: owned(channel) });
    }

    /// Records a channel part.
    pub fn part(&mut self, channel: &str, message: Option<&str>)
        ensures
            final(self)@.len() == old(self)@.len() + 1,
            forall|i: int| 0 <= i < old(self)@.len() ==> #[trigger] final(self)@[i] == old(self)@[i],
            final(self)@.last() matches OutgoingIrc::Part { channel: c, message: m } && c@ == channel@
                && match message {
                Some(x) => m matches Some(y) && y@ == x@,
                None => m is None,
            },
    {
        let m = match message {
            Some(x) => Some(owned(x)),
            None => None,
        };
        self.log.push(OutgoingIrc::Part { channel: owned(channel), message: m });
    }

    /// Records a raw protocol line.
    pub fn send_raw(&mut self, line: &str)
        ensures
            final(self)@.len() == old(self)@.len() + 1,
            forall|i: int| 0 <= i < old(self)@.len() ==> #[trigger] final(self)@[i] == old(self)@[i],
            final(self)@.last() matches OutgoingIrc::Raw(l) && l@ == line@,
    {
        self.log.push(OutgoingIrc::Raw(owned(line)));
    }
}

/// A copy of an outgoing action.
pub fn copy_outgoing(o: &OutgoingIrc) -> (r: OutgoingIrc)
    ensures
        r == *o,
{
    match o {
        OutgoingIrc::Privmsg { target, text } => OutgoingIrc::Privmsg { target: target.clone(), text: text.clone() },
        OutgoingIrc::Notice { target, text } => OutgoingIrc::Notice { target: target.clone(), text: text.clone() },
        OutgoingIrc::Join { channel } => OutgoingIrc::Join { channel: channel.clone() },
        OutgoingIrc::Part { channel, message } => OutgoingIrc::Part {
            channel: channel.clone(),
            message: match message {
                Some(m) => Some(m.clone()),
                None => None,
            },
        },
        OutgoingIrc::Raw(s) => OutgoingIrc::Raw(s.clone()),
    }
}

/// A private message that was sent is what the recorder reports for its
/// target, after everything reported before; other targets see no change.
pub proof fn law_privmsg_recorded(log: Seq<OutgoingIrc>, sent: OutgoingIrc, other: Seq<char>)
    requires
        sent is Privmsg,
    ensures
        privmsgs_in(log.push(sent), sent->Privmsg_target@) == privmsgs_in(log, sent->Privmsg_target@).push(
            sent->Privmsg_text@,
        ),
        other != sent->Privmsg_target@ ==> privmsgs_in(log.push(sent), other) == privmsgs_in(log, other),
{
    assert(log.push(sent).drop_last() =~= log);
}

/// Actions other than private messages do not change what the recorder
/// reports for any target.
pub proof fn law_only_privmsgs_reported(log: Seq<OutgoingIrc>, sent: OutgoingIrc, target: Seq<char>)
    requires
        !(sent is Privmsg),
    ensures
        privmsgs_in(log.push(sent), target) == privmsgs_in(log, target),
{
    assert(log.push(sent).drop_last() =~= log);
}

} // verus!
