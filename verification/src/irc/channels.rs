//! IRC channel naming for world and per-room visibility.

use vstd::prelude::*;

use super::config::{IrcConfig, PlayMode};
use crate::object::ObjectId;
use crate::text::{
    concat2, concat3, eq_ignore_case, has_prefix, is_ws, lower_seq, lstrip_ws, owned, rstrip_ws,
    split_once, split_once_str, strip_prefix, trim, trim_seq, views,
};

verus! {

/// Classify an IRC target string.
#[derive(Debug, Clone, PartialEq, Eq)]
pub enum ChannelTarget {
    World,
    Room(String),
    Private(String),
    Bot,
}

pub enum ChannelTargetView {
    World,
    Room(Seq<char>),
    Private(Seq<char>),
    Bot,
}

impl View for ChannelTarget {
    type V = ChannelTargetView;

    open spec fn view(&self) -> ChannelTargetView {
        match self {
            ChannelTarget::World => ChannelTargetView::World,
            ChannelTarget::Room(s) => ChannelTargetView::Room(s@),
            ChannelTarget::Private(s) => ChannelTargetView::Private(s@),
            ChannelTarget::Bot => ChannelTargetView::Bot,
        }
    }
}

/// The per-room channel of a place: the prefix and the id without its type.
pub open spec fn room_channel(prefix: Seq<char>, room_id: Seq<char>) -> Seq<char> {
    prefix + match split_once(room_id, ":"@) {
        Some((_, rest)) => rest,
        None => room_id,
    }
}

/// Build the per-room channel name for a place object.
pub fn room_channel_name(prefix: &str, room_id: &ObjectId) -> (r: String)
    ensures
        r@ == room_channel(prefix@, room_id@),
{
    let id = room_id.as_str();
    let slug = match split_once_str(id, ":") {
        Some((_, rest)) => rest,
        None => id,
    };
    concat2(prefix, slug)
}

/// How a message target relates to the bot's configuration.
pub open spec fn target_kind(
    target: Seq<char>,
    bot_nick: Seq<char>,
    world: Seq<char>,
    room_prefix: Seq<char>,
) -> ChannelTargetView {
    let t = trim_seq(target);
    if lower_seq(t) == lower_seq(bot_nick) {
        ChannelTargetView::Bot
    } else if lower_seq(t) == lower_seq(world) {
        ChannelTargetView::World
    } else if has_prefix(t, room_prefix) && t.len() > room_prefix.len() {
        ChannelTargetView::Room(t.subrange(room_prefix.len() as int, t.len() as int))
    } else {
        ChannelTargetView::Private(t)
    }
}

/// Classify an IRC message target relative to the bot configuration.
pub fn classify_target(target: &str, config: &IrcConfig) -> (r: ChannelTarget)
    ensures
        r@ == target_kind(
            target@,
            config.bot_nick@,
            config.world_channel@,
            config.room_channel_prefix@,
        ),
{
    let normalized = trim(target);
    if eq_ignore_case(normalized, config.bot_nick.as_str()) {
        return ChannelTarget::Bot;
    }
    if eq_ignore_case(normalized, config.world_channel.as_str()) {
        return ChannelTarget::World;
    }
    if let Some(suffix) = strip_prefix(normalized, config.room_channel_prefix.as_str()) {
        if suffix.unicode_len() > 0 {
            return ChannelTarget::Room(owned(suffix));
        }
    }
    ChannelTarget::Private(owned(normalized))
}

pub open spec fn join_notice(channel: Seq<char>) -> Seq<char> {
    "Join "@ + channel + " to see speech and actions in your current location."@
}

/// Notice text inviting a player IRC client to join a room channel.
pub fn room_join_notice(channel: &str) -> (r: String)
    ensures
        r@ == join_notice(channel@),
{
    concat3("Join ", channel, " to see speech and actions in your current location.")
}

/// Shared in-character channel for open-world play.
pub fn shared_ic_channel(config: &IrcConfig) -> (r: &str)
    ensures
        r@ == config.world_channel@,
{
    config.world_channel.as_str()
}

/// The in-character channel for a room under the configured play mode.
pub open spec fn ic_channel(config: IrcConfig, room_id: Seq<char>) -> Seq<char> {
    match config.play_mode {
        PlayMode::Story => room_channel(config.room_channel_prefix@, room_id),
        PlayMode::Open => config.world_channel@,
    }
}

/// In-character IRC channel or presence key for speech/movement routing.
pub fn speech_channel(config: &IrcConfig, room_id: &ObjectId) -> (r: String)
    ensures
        r@ == ic_channel(*config, room_id@),
{
    match config.play_mode {
        PlayMode::Story => room_channel_name(config.room_channel_prefix.as_str(), room_id),
        PlayMode::Open => owned(shared_ic_channel(config)),
    }
}

pub open spec fn ic_notice(config: IrcConfig, room_id: Seq<char>) -> Seq<char> {
    match config.play_mode {
        PlayMode::Story => join_notice(room_channel(config.room_channel_prefix@, room_id)),
        PlayMode::Open => "Join "@ + config.world_channel@ + " for in-character speech and actions."@,
    }
}

/// Login/movement notice for the active play mode.
pub fn ic_join_notice(config: &IrcConfig, room_id: &ObjectId) -> (r: String)
    ensures
        r@ == ic_notice(*config, room_id@),
{
    match config.play_mode {
        PlayMode::Story => {
            let channel = room_channel_name(config.room_channel_prefix.as_str(), room_id);
            room_join_notice(channel.as_str())
        },
        PlayMode::Open => concat3(
            "Join ",
            shared_ic_channel(config),
            " for in-character speech and actions.",
        ),
    }
}

/// Channels a player is in while logged in: the world channel when set,
/// and in story mode the room channel too.
pub open spec fn presence_channels(config: IrcConfig, room_id: Option<Seq<char>>) -> Seq<
    Seq<char>,
> {
    let world = if config.world_channel@.len() > 0 {
        seq![config.world_channel@]
    } else {
        Seq::empty()
    };
    match config.play_mode {
        PlayMode::Story => world + match room_id {
            Some(id) => seq![room_channel(config.room_channel_prefix@, id)],
            None => Seq::empty(),
        },
        PlayMode::Open => world,
    }
}

fn presence_list(config: &IrcConfig, room_id: Option<&ObjectId>) -> (r: Vec<String>)
    ensures
        views(r@) == presence_channels(
            *config,
            match room_id {
                Some(id) => Some(id@),
                None => None,
            },
        ),
{
    let mut out: Vec<String> = Vec::new();
    if config.world_channel.unicode_len() > 0 {
        out.push(config.world_channel.clone());
    }
    match config.play_mode {
        PlayMode::Story => {
            if let Some(room_id) = room_id {
                out.push(room_channel_name(config.room_channel_prefix.as_str(), room_id));
            }
        },
        PlayMode::Open => {},
    }
    assert(views(out@) =~= presence_channels(
        *config,
        match room_id {
            Some(id) => Some(id@),
            None => None,
        },
    ));
    out
}

/// Channels to join on login for the active play mode.
pub fn login_channel_joins(config: &IrcConfig, room_id: Option<&ObjectId>) -> (r: Vec<String>)
    ensures
        views(r@) == presence_channels(
            *config,
            match room_id {
                Some(id) => Some(id@),
                None => None,
            },
        ),
{
    presence_list(config, room_id)
}

/// Channels to part on logout for the active play mode.
pub fn logout_channel_parts(config: &IrcConfig, room_id: Option<&ObjectId>) -> (r: Vec<String>)
    ensures
        views(r@) == presence_channels(
            *config,
            match room_id {
                Some(id) => Some(id@),
                None => None,
            },
        ),
{
    presence_list(config, room_id)
}

/// The per-room channel of a place is read back as that room's target: its
/// slug after the prefix. This holds when the channel name has no surrounding
/// whitespace, the slug is not empty, and the name is neither the bot's nick
/// nor the world channel (compared without ASCII case).
pub proof fn law_room_channel_classified_as_room(
    prefix: Seq<char>,
    room_id: Seq<char>,
    bot_nick: Seq<char>,
    world: Seq<char>,
)
    requires
        ({
            let c = room_channel(prefix, room_id);
            &&& c.len() > prefix.len()
            &&& !is_ws(c[0])
            &&& !is_ws(c.last())
            &&& lower_seq(c) != lower_seq(bot_nick)
            &&& lower_seq(c) != lower_seq(world)
        }),
    ensures
        target_kind(room_channel(prefix, room_id), bot_nick, world, prefix) == ChannelTargetView::Room(
            room_channel(prefix, room_id).subrange(prefix.len() as int, room_channel(prefix, room_id).len() as int),
        ),
        room_channel(prefix, room_id).subrange(prefix.len() as int, room_channel(prefix, room_id).len() as int)
            == match split_once(room_id, ":"@) {
            Some((_, rest)) => rest,
            None => room_id,
        },
{
    let c = room_channel(prefix, room_id);
    assert(lstrip_ws(c) == c);
    assert(rstrip_ws(c) == c);
    assert(trim_seq(c) == c);
    assert(c.subrange(0, prefix.len() as int) =~= prefix);
    let slug = match split_once(room_id, ":"@) {
        Some((_, rest)) => rest,
        None => room_id,
    };
    assert(c.subrange(prefix.len() as int, c.len() as int) =~= slug);
}

} // verus!
