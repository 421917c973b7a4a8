//! The owner-only commands: `setactivity`, `kill` and `restart`.

use vstd::prelude::*;
use crate::arguments::{Args, after_token};
use crate::commands::{HandlerError, send_text, sent_str};
use crate::config::{Config, ConfigError, spec_config_toml};
use crate::transport::{Context, Message, MessageData, ctx_localize};

verus! {

/// The free-form tail of a message after its command token.
pub open spec fn msg_tail(msg: Message) -> Option<Seq<char>> {
    let s = msg.content@;
    let p1 = after_token(s, 0);
    if p1 < s.len() {
        Some(s.subrange(p1, s.len() as int))
    } else {
        None
    }
}

/// An optional owned string agreeing with an optional character sequence.
pub open spec fn opt_str_is(o: Option<String>, t: Option<Seq<char>>) -> bool {
    match (o, t) {
        (Some(s), Some(x)) => s@ == x,
        (None, None) => true,
        _ => false,
    }
}

/// The configuration, presence log and persisted-file log all carry the new
/// activity, and everything untouched by `setactivity` is unchanged.
pub open spec fn set_activity_effects(a: Context, b: Context, tail: Option<Seq<char>>) -> bool {
    &&& a.config matches Some(cfg) && b.config matches Some(cfg2) && cfg2.credentials
        == cfg.credentials && cfg2.server_specific == cfg.server_specific
        && cfg2.global.current_status == cfg.global.current_status && cfg2.global.path_database
        == cfg.global.path_database && cfg2.global.superusers == cfg.global.superusers
        && cfg2.global.xp_cooldown == cfg.global.xp_cooldown && cfg2.global.metrics
        == cfg.global.metrics && opt_str_is(cfg2.global.activity, tail)
    &&& b.fs_writes@.len() == a.fs_writes@.len() + 1
    &&& b.fs_writes@.subrange(0, a.fs_writes@.len() as int) == a.fs_writes@
    &&& b.fs_writes@.last().0@ == "config.toml"@
    &&& b.config matches Some(cfg2) && b.fs_writes@.last().1@ == spec_config_toml(cfg2)
    &&& b.presence@.len() == a.presence@.len() + 1
    &&& b.presence@.subrange(0, a.presence@.len() as int) == a.presence@
    &&& opt_str_is(b.presence@.last(), tail)
    &&& b.bundle == a.bundle
    &&& b.shard_manager == a.shard_manager
    &&& b.cache == a.cache
    &&& b.shard_id == a.shard_id
    &&& b.now_ms == a.now_ms
    &&& b.process_start_secs == a.process_start_secs
    &&& b.version == a.version
    &&& b.channel_directory == a.channel_directory
    &&& b.user_directory == a.user_directory
    &&& b.random == a.random
}

/// The send log grew by exactly this text to this channel, and the rest of
/// the platform window is unchanged.
pub open spec fn http_sent_str(a: Context, b: Context, ch: u64, reply: Seq<char>) -> bool {
    &&& b.http.channel == a.http.channel
    &&& b.http.user == a.http.user
    &&& b.http.sent@.len() == a.http.sent@.len() + 1
    &&& b.http.sent@.subrange(0, a.http.sent@.len() as int) == a.http.sent@
    &&& b.http.sent@.last().0 == ch
    &&& b.http.sent@.last().1 matches MessageData::StrMsg(s) && s@ == reply
}

/// The id of the reply confirming an activity change.
pub open spec fn set_activity_reply_id(tail: Option<Seq<char>>) -> Seq<char> {
    if tail is Some {
        "set-activity-some"@
    } else {
        "set-activity-none"@
    }
}

/// Stores the message tail as the new activity: updates the configuration,
/// persists it, records the presence change, and confirms with a localized
/// reply. With no tail the activity is removed instead.
pub fn set_activity(ctx: &mut Context, msg: &Message) -> (r: Result<(), HandlerError>)
    ensures
        match r {
            Ok(()) => ({
                &&& set_activity_effects(*old(ctx), *final(ctx), msg_tail(*msg))
                &&& ctx_localize(
                    *old(ctx),
                    set_activity_reply_id(msg_tail(*msg)),
                    Seq::empty(),
                ) matches Some(reply) && http_sent_str(
                    *old(ctx),
                    *final(ctx),
                    msg.channel_id.0,
                    reply,
                )
            }),
            Err(e) => match e {
                HandlerError::Config(ce) => old(ctx).config is None && ce
                    == ConfigError::MissingFromShareMap && *final(ctx) == *old(ctx),
                HandlerError::L10N(_) => set_activity_effects(
                    *old(ctx),
                    *final(ctx),
                    msg_tail(*msg),
                ) && final(ctx).http == old(ctx).http && ctx_localize(
                    *old(ctx),
                    set_activity_reply_id(msg_tail(*msg)),
                    Seq::empty(),
                ) is None,
                _ => false,
            },
        },
{
    let mut args = Args::new(msg.content.as_str());
    args.advance();
    let activity = args.remains();
    if ctx.config.is_none() {
        return Err(HandlerError::Config(ConfigError::MissingFromShareMap));
    }
    let activity_copy: Option<String> = match &activity {
        Some(s) => Some(String::from_str(s.as_str())),
        None => None,
    };
    let file = match &mut ctx.config {
        Some(cfg) => cfg.change_activity(activity),
        None => {
            return Err(HandlerError::Config(ConfigError::MissingFromShareMap));
        },
    };
    ctx.fs_writes.push((String::from_str("config.toml"), file));
    proof {
        assert(ctx.fs_writes@.subrange(0, old(ctx).fs_writes@.len() as int) =~= old(
            ctx,
        ).fs_writes@);
    }
    let reply_id: &str = match activity_copy {
        Some(text) => {
            ctx.set_activity(text);
            "set-activity-some"
        },
        None => {
            ctx.reset_presence();
            "set-activity-none"
        },
    };
    proof {
        assert(ctx.presence@.subrange(0, old(ctx).presence@.len() as int) =~= old(ctx).presence@);
    }
    let reply = match ctx.localize_msg(reply_id, None) {
        Ok(s) => s,
        Err(e) => {
            return Err(HandlerError::L10N(e));
        },
    };
    let ghost mid = *ctx;
    msg.channel_id.say(&mut ctx.http, reply);
    proof {
        assert(ctx.http.sent@.subrange(0, mid.http.sent@.len() as int) =~= mid.http.sent@);
    }
    Ok(())
}

/// Confirms, then asks the shard manager to shut every shard down. The
/// shard manager must be installed: its absence during a shutdown is
/// fatal, so callers test for it first.
pub fn kill(ctx: &mut Context, msg: &Message) -> (r: Result<(), HandlerError>)
    requires
        old(ctx).shard_manager is Some,
    ensures
        match r {
            Ok(()) => ({
                &&& ctx_localize(*old(ctx), "shutting-down"@, Seq::empty()) matches Some(reply)
                    && http_sent_str(*old(ctx), *final(ctx), msg.channel_id.0, reply)
                &&& old(ctx).shard_manager matches Some(sm) && final(ctx).shard_manager matches
                    Some(sm2) && sm2.shutdown && sm2.runners == sm.runners && sm2.restarted
                    == sm.restarted
                &&& kill_frame(*old(ctx), *final(ctx))
            }),
            Err(e) => *final(ctx) == *old(ctx) && ctx_localize(
                *old(ctx),
                "shutting-down"@,
                Seq::empty(),
            ) is None && e matches HandlerError::L10N(_),
        },
{
    let reply = match ctx.localize_msg("shutting-down", None) {
        Ok(s) => s,
        Err(e) => {
            return Err(HandlerError::L10N(e));
        },
    };
    msg.channel_id.say(&mut ctx.http, reply);
    proof {
        assert(ctx.http.sent@.subrange(0, old(ctx).http.sent@.len() as int) =~= old(
            ctx,
        ).http.sent@);
    }
    match &mut ctx.shard_manager {
        Some(manager) => {
            manager.shutdown_all();
        },
        None => {
        },
    }
    Ok(())
}

/// Everything `kill` leaves alone is unchanged.
pub open spec fn kill_frame(a: Context, b: Context) -> bool {
    &&& b.config == a.config
    &&& b.bundle == a.bundle
    &&& b.cache == a.cache
    &&& b.shard_id == a.shard_id
    &&& b.now_ms == a.now_ms
    &&& b.process_start_secs == a.process_start_secs
    &&& b.version == a.version
    &&& b.presence == a.presence
    &&& b.fs_writes == a.fs_writes
    &&& b.channel_directory == a.channel_directory
    &&& b.user_directory == a.user_directory
    &&& b.random == a.random
}

/// Confirms, then asks the shard manager to restart every instantiated
/// shard, in the order they are listed.
pub fn restart_shards(ctx: &mut Context, msg: &Message) -> (r: Result<(), HandlerError>)
    ensures
        match r {
            Ok(()) => ({
                &&& ctx_localize(*old(ctx), "restarting-shards"@, Seq::empty()) matches Some(
                    reply,
                ) && http_sent_str(*old(ctx), *final(ctx), msg.channel_id.0, reply)
                &&& old(ctx).shard_manager matches Some(sm) && final(ctx).shard_manager matches
                    Some(sm2) && sm2.runners == sm.runners && sm2.shutdown == sm.shutdown
                    && sm2.restarted@ == sm.restarted@ + sm.runners@.map_values(
                    (|p: (u64, crate::transport::ShardRunnerInfo)| p.0),
                )
                &&& kill_frame(*old(ctx), *final(ctx))
            }),
            Err(e) => match e {
                HandlerError::L10N(_) => *final(ctx) == *old(ctx) && ctx_localize(
                    *old(ctx),
                    "restarting-shards"@,
                    Seq::empty(),
                ) is None,
                HandlerError::ShardManager(_) => ({
                    &&& old(ctx).shard_manager is None
                    &&& ctx_localize(*old(ctx), "restarting-shards"@, Seq::empty()) matches Some(
                        reply,
                    ) && http_sent_str(*old(ctx), *final(ctx), msg.channel_id.0, reply)
                    &&& kill_frame(*old(ctx), *final(ctx))
                    &&& final(ctx).shard_manager == old(ctx).shard_manager
                }),
                _ => false,
            },
        },
{
    let reply = match ctx.localize_msg("restarting-shards", None) {
        Ok(s) => s,
        Err(e) => {
            return Err(HandlerError::L10N(e));
        },
    };
    msg.channel_id.say(&mut ctx.http, reply);
    proof {
        assert(ctx.http.sent@.subrange(0, old(ctx).http.sent@.len() as int) =~= old(
            ctx,
        ).http.sent@);
    }
    match &mut ctx.shard_manager {
        Some(manager) => {
            let ids = manager.shards_instantiated();
            let ghost base = manager.restarted@;
            let mut i: usize = 0;
            while i < ids.len()
                invariant
                    i <= ids@.len(),
                    manager.runners == old(ctx).shard_manager->0.runners,
                    manager.shutdown == old(ctx).shard_manager->0.shutdown,
                    ids@ == manager.runners@.map_values(
                        |p: (u64, crate::transport::ShardRunnerInfo)| p.0,
                    ),
                    manager.restarted@ == base + ids@.subrange(0, i as int),
                decreases ids@.len() - i,
            {
                manager.restart(ids[i]);
                assert(manager.restarted@ =~= base + ids@.subrange(0, i + 1));
                i = i + 1;
            }
            assert(ids@.subrange(0, ids@.len() as int) =~= ids@);
            Ok(())
        },
        None => Err(
            HandlerError::ShardManager(
                crate::transport::ShardManagerError::MissingFromShareMap,
            ),
        ),
    }
}

} // verus!
