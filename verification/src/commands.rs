//! The command handlers and what they share: the handler error type and the
//! vocabulary for stating what a handler sent and changed.

pub mod fun;
pub mod general;
pub mod owner;
pub mod user;

use vstd::prelude::*;
use crate::config::ConfigError;
use crate::localization::L10NError;
use crate::transport::{Context, MessageData, ShardManagerError, TransportError};

verus! {

/// Why a handler failed; the dispatcher logs it and serves the next message.
#[derive(Debug, PartialEq)]
pub enum HandlerError {
    L10N(L10NError),
    Config(ConfigError),
    Transport(TransportError),
    ShardManager(ShardManagerError),
    MissingProcessInfo,
    MissingGiphyKey,
    GiphyResponseInvalid,
}

/// Everything of two contexts agrees except possibly the platform window.
pub open spec fn ctx_same_but_http(a: Context, b: Context) -> bool {
    &&& b.config == a.config
    &&& b.bundle == a.bundle
    &&& b.shard_manager == a.shard_manager
    &&& b.cache == a.cache
    &&& b.shard_id == a.shard_id
    &&& b.now_ms == a.now_ms
    &&& b.process_start_secs == a.process_start_secs
    &&& b.version == a.version
    &&& b.presence == a.presence
    &&& b.fs_writes == a.fs_writes
    &&& b.channel_directory == a.channel_directory
    &&& b.user_directory == a.user_directory
    &&& b.random == a.random
}

/// Exactly one outbound message was added, with this text, to this channel,
/// and nothing else of the context changed.
pub open spec fn sent_str(a: Context, b: Context, ch: u64, reply: Seq<char>) -> bool {
    &&& ctx_same_but_http(a, b)
    &&& b.http.channel == a.http.channel
    &&& b.http.user == a.http.user
    &&& b.http.sent@.len() == a.http.sent@.len() + 1
    &&& b.http.sent@.subrange(0, a.http.sent@.len() as int) == a.http.sent@
    &&& b.http.sent@.last().0 == ch
    &&& b.http.sent@.last().1 matches MessageData::StrMsg(s) && s@ == reply
}

/// Sends one text reply and proves the send-log bookkeeping.
pub(crate) fn send_text(ctx: &mut Context, ch: crate::transport::ChannelId, reply: String)
    ensures
        sent_str(*old(ctx), *final(ctx), ch.0, reply@),
{
    let ghost before = ctx.http.sent@;
    ch.say(&mut ctx.http, reply);
    proof {
        assert(ctx.http.sent@.subrange(0, before.len() as int) =~= before);
    }
}

/// Exactly one built message was added, to this channel, and nothing else
/// of the context changed.
pub open spec fn sent_create(
    a: Context,
    b: Context,
    ch: u64,
    m: crate::transport::CreateMessage,
) -> bool {
    &&& ctx_same_but_http(a, b)
    &&& b.http.channel == a.http.channel
    &&& b.http.user == a.http.user
    &&& b.http.sent@.len() == a.http.sent@.len() + 1
    &&& b.http.sent@.subrange(0, a.http.sent@.len() as int) == a.http.sent@
    &&& b.http.sent@.last() == (ch, MessageData::CreateMessage(m))
}

/// Sends one built message and proves the send-log bookkeeping.
pub(crate) fn send_create_message(
    ctx: &mut Context,
    ch: crate::transport::ChannelId,
    m: crate::transport::CreateMessage,
)
    ensures
        sent_create(*old(ctx), *final(ctx), ch.0, m),
{
    let ghost before = ctx.http.sent@;
    ch.send_message(&mut ctx.http, m);
    proof {
        assert(ctx.http.sent@.subrange(0, before.len() as int) =~= before);
    }
}

/// The name-to-id pairs of a directory, at the specification level.
pub open spec fn dir_view(d: Seq<(String, u64)>) -> Seq<(Seq<char>, u64)> {
    d.map_values(|p: (String, u64)| (p.0@, p.1))
}

} // verus!
