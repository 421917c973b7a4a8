//! The general commands: `ping`, `info` and `say`.

use vstd::prelude::*;
use crate::arguments::{Args, after_token, token_at, spec_resolve_ref};
use crate::commands::{HandlerError, dir_view, send_create_message, send_text, sent_str};
use crate::config::ConfigError;
use crate::localization::L10NError;
use crate::text::{dec_int, dec_digits, i64_to_string, u64_to_string};
use crate::transport::{Channel, ChannelId, Context, Message, MessageData, ctx_localize, spec_runner};

verus! {

/// The heartbeat latency of the context's shard, when one is known.
pub open spec fn spec_heartbeat(ctx: Context) -> Option<u64> {
    match ctx.shard_manager {
        None => None,
        Some(sm) => match spec_runner(sm.runners@, ctx.shard_id) {
            None => None,
            Some(info) => info.latency,
        },
    }
}

/// Reads the heartbeat latency of the context's shard.
pub fn get_heartbeat_latency(ctx: &Context) -> (r: Option<u64>)
    ensures
        r == spec_heartbeat(*ctx),
{
    match &ctx.shard_manager {
        None => None,
        Some(sm) => match sm.runner(ctx.shard_id) {
            None => None,
            Some(info) => info.latency,
        },
    }
}

/// An integer clamped into the `i64` range.
pub open spec fn clamp_i64(x: int) -> int {
    if x > i64::MAX {
        i64::MAX as int
    } else if x < i64::MIN {
        i64::MIN as int
    } else {
        x
    }
}

/// Milliseconds between a message's creation and the context's clock.
pub open spec fn ping_delta(ctx: Context, msg: Message) -> int {
    clamp_i64(ctx.now_ms - msg.id.created_at_ms)
}

/// The arguments handed to the ping reply pattern.
pub open spec fn ping_args(ctx: Context, msg: Message) -> Seq<(Seq<char>, Seq<char>)> {
    match spec_heartbeat(ctx) {
        Some(hb) => seq![
            ("ping"@, dec_int(ping_delta(ctx, msg))),
            ("heartbeat"@, dec_digits(hb as nat)),
        ],
        None => seq![("ping"@, dec_int(ping_delta(ctx, msg)))],
    }
}

/// The localized ping reply, when the bundle can produce it.
pub open spec fn ping_reply(ctx: Context, msg: Message) -> Option<Seq<char>> {
    match spec_heartbeat(ctx) {
        Some(_) => ctx_localize(ctx, "ping-msg-heartbeat"@, ping_args(ctx, msg)),
        None => ctx_localize(ctx, "ping-msg"@, ping_args(ctx, msg)),
    }
}

/// Replies with the observed latency, and the shard heartbeat when known.
pub fn ping(ctx: &mut Context, msg: &Message) -> (r: Result<(), HandlerError>)
    ensures
        match r {
            Ok(()) => ping_reply(*old(ctx), *msg) matches Some(reply) && sent_str(
                *old(ctx),
                *final(ctx),
                msg.channel_id.0,
                reply,
            ),
            Err(e) => *final(ctx) == *old(ctx) && ping_reply(*old(ctx), *msg) is None && e matches
                HandlerError::L10N(_),
        },
{
    let wide: i128 = ctx.now_ms as i128 - msg.id.created_at() as i128;
    let delta: i64 = if wide > i64::MAX as i128 {
        i64::MAX
    } else if wide < i64::MIN as i128 {
        i64::MIN
    } else {
        wide as i64
    };
    assert(delta as int == ping_delta(*ctx, *msg));
    let hb = get_heartbeat_latency(ctx);
    let reply = match hb {
        Some(h) => {
            let mut args: Vec<(String, String)> = Vec::new();
            args.push((String::from_str("ping"), i64_to_string(delta)));
            args.push((String::from_str("heartbeat"), u64_to_string(h)));
            proof {
                assert(crate::localization::opt_args(Some(&args)) =~= ping_args(*ctx, *msg));
            }
            match ctx.localize_msg("ping-msg-heartbeat", Some(&args)) {
                Ok(s) => s,
                Err(e) => {
                    return Err(HandlerError::L10N(e));
                },
            }
        },
        None => {
            let mut args: Vec<(String, String)> = Vec::new();
            args.push((String::from_str("ping"), i64_to_string(delta)));
            proof {
                assert(crate::localization::opt_args(Some(&args)) =~= ping_args(*ctx, *msg));
            }
            match ctx.localize_msg("ping-msg", Some(&args)) {
                Ok(s) => s,
                Err(e) => {
                    return Err(HandlerError::L10N(e));
                },
            }
        },
    };
    send_text(ctx, msg.channel_id, reply);
    Ok(())
}

/// The arguments handed to the uptime pattern for a duration in seconds.
pub open spec fn dur_args(u: nat) -> Seq<(Seq<char>, Seq<char>)> {
    seq![
        ("days"@, dec_digits(u / 86400)),
        ("hours"@, dec_digits(u / 3600 % 24)),
        ("mins"@, dec_digits(u / 60 % 60)),
        ("secs"@, dec_digits(u % 60)),
    ]
}

/// Seconds the process has been up, clamped at zero on clock regressions.
pub open spec fn uptime_secs(ctx: Context) -> nat {
    let now = if ctx.now_ms < 0 {
        0int
    } else {
        ctx.now_ms as int / 1000
    };
    match ctx.process_start_secs {
        Some(st) => if now >= st {
            (now - st) as nat
        } else {
            0
        },
        None => 0,
    }
}

/// Renders a duration as days, hours, minutes and seconds through the
/// uptime pattern.
pub fn duration_to_str(bundle: &crate::localization::L10NBundle, secs: u64) -> (r: Result<
    String,
    L10NError,
>)
    ensures
        match r {
            Ok(s) => crate::localization::spec_localize(*bundle, "info-uptime"@, dur_args(
                secs as nat,
            )) == Some(s@),
            Err(e) => crate::localization::spec_localize(*bundle, "info-uptime"@, dur_args(
                secs as nat,
            )) is None && (e matches L10NError::MissingMsg(_) || e matches
                L10NError::MissingValue(_)),
        },
{
    let mut args: Vec<(String, String)> = Vec::new();
    args.push((String::from_str("days"), u64_to_string(secs / 86400)));
    args.push((String::from_str("hours"), u64_to_string(secs / 3600 % 24)));
    args.push((String::from_str("mins"), u64_to_string(secs / 60 % 60)));
    args.push((String::from_str("secs"), u64_to_string(secs % 60)));
    proof {
        assert(crate::localization::opt_args(Some(&args)) =~= dur_args(secs as nat));
    }
    bundle.localize_msg("info-uptime", Some(&args))
}

/// Whether the bundle can produce every piece of the info reply: the
/// embed message with its value and five attributes, and the uptime
/// pattern.
pub open spec fn info_available(ctx: Context) -> bool {
    match ctx.bundle {
        None => false,
        Some(b) => match crate::localization::spec_lookup_msg(b.messages@, "info-embed"@) {
            None => false,
            Some(m) => {
                &&& m.value is Some
                &&& crate::localization::spec_lookup_attr(m.attributes@, "general-title"@)
                    is Some
                &&& crate::localization::spec_lookup_attr(m.attributes@, "general-body"@) is Some
                &&& crate::localization::spec_lookup_attr(m.attributes@, "config-title"@) is Some
                &&& crate::localization::spec_lookup_attr(m.attributes@, "config-body"@) is Some
                &&& crate::localization::spec_lookup_attr(m.attributes@, "footer"@) is Some
                &&& (match crate::localization::spec_lookup_msg(b.messages@, "info-uptime"@) {
                    Some(u) => u.value is Some,
                    None => false,
                })
            },
        },
    }
}

/// The embed colour of the info reply.
pub open spec fn info_colour() -> u32 {
    0x0080c0
}

/// Whether an embed is the info reply for this context.
pub open spec fn info_embed_matches(ctx: Context, e: crate::transport::CreateEmbed) -> bool {
    match (ctx.bundle, ctx.config) {
        (Some(b), Some(cfg)) => match crate::localization::spec_lookup_msg(
            b.messages@,
            "info-embed"@,
        ) {
            Some(m) => {
                let up = crate::localization::spec_localize(
                    b,
                    "info-uptime"@,
                    dur_args(uptime_secs(ctx)),
                );
                &&& m.value matches Some(p) && e.title matches Some(t) && t@
                    == crate::localization::spec_format(p.parts@, Seq::empty())
                &&& e.colour == info_colour()
                &&& e.fields@.len() == 2
                &&& crate::localization::spec_attr_format(m, "general-title"@, Seq::empty())
                    matches Some(gt) && e.fields@[0].0@ == gt
                &&& up matches Some(upseq) && crate::localization::spec_attr_format(
                    m,
                    "general-body"@,
                    seq![("version"@, ctx.version@), ("uptime"@, upseq)],
                ) matches Some(gb) && e.fields@[0].1@ == gb
                &&& e.fields@[0].2 == false
                &&& crate::localization::spec_attr_format(m, "config-title"@, Seq::empty())
                    matches Some(ct) && e.fields@[1].0@ == ct
                &&& crate::localization::spec_attr_format(
                    m,
                    "config-body"@,
                    seq![("langid"@, cfg.server_specific.locale@)],
                ) matches Some(cb) && e.fields@[1].1@ == cb
                &&& e.fields@[1].2 == false
                &&& crate::localization::spec_attr_format(
                    m,
                    "footer"@,
                    seq![("id"@, dec_digits(ctx.cache.user.id as nat))],
                ) matches Some(ft) && e.footer matches Some(f) && f@ == ft
            },
            None => false,
        },
        _ => false,
    }
}

/// Replies with an embed describing the bot: version, uptime, configured
/// language, and the client id.
pub fn info(ctx: &mut Context, msg: &Message) -> (r: Result<(), HandlerError>)
    ensures
        match r {
            Ok(()) => final(ctx).http.sent@.last().1 matches MessageData::CreateMessage(cm)
                && cm._embed matches Some(e) && info_embed_matches(*old(ctx), e)
                && crate::commands::sent_create(*old(ctx), *final(ctx), msg.channel_id.0, cm)
                && info_available(*old(ctx)),
            Err(e) => *final(ctx) == *old(ctx) && match e {
                HandlerError::MissingProcessInfo => old(ctx).process_start_secs is None,
                HandlerError::Config(ce) => old(ctx).process_start_secs is Some && old(
                    ctx,
                ).config is None && ce == ConfigError::MissingFromShareMap,
                HandlerError::L10N(le) => old(ctx).process_start_secs is Some && old(
                    ctx,
                ).config is Some && (le is MissingFromShareMap <==> old(ctx).bundle is None)
                    && !info_available(*old(ctx)),
                _ => false,
            },
        },
{
    let start: u64 = match ctx.process_start_secs {
        Some(s) => s,
        None => {
            return Err(HandlerError::MissingProcessInfo);
        },
    };
    let now: u64 = (if ctx.now_ms < 0 {
        0u64
    } else {
        ctx.now_ms as u64
    }) / 1000;
    let uptime: u64 = if now >= start {
        now - start
    } else {
        0
    };
    assert(uptime as nat == uptime_secs(*ctx));
    let bot_id: u64 = ctx.cache.user.id;
    let version = String::from_str(ctx.version.as_str());
    let locale = match &ctx.config {
        Some(cfg) => String::from_str(cfg.get_locale()),
        None => {
            return Err(HandlerError::Config(ConfigError::MissingFromShareMap));
        },
    };
    let built: crate::transport::CreateMessage = {
        let bundle = match &ctx.bundle {
            Some(b) => b,
            None => {
                return Err(HandlerError::L10N(L10NError::MissingFromShareMap));
            },
        };
        let embed_msg = match bundle.get_message("info-embed") {
            Ok(m) => m,
            Err(e) => {
                return Err(HandlerError::L10N(e));
            },
        };
        let embed_title = match bundle.get_msg_value(embed_msg, None) {
            Ok(s) => s,
            Err(e) => {
                return Err(HandlerError::L10N(e));
            },
        };
        let general_title = match bundle.get_msg_attribute(embed_msg, "general-title", None) {
            Ok(s) => s,
            Err(e) => {
                return Err(HandlerError::L10N(e));
            },
        };
        let uptime_str = match duration_to_str(bundle, uptime) {
            Ok(s) => s,
            Err(e) => {
                return Err(HandlerError::L10N(e));
            },
        };
        let mut args_general: Vec<(String, String)> = Vec::new();
        args_general.push((String::from_str("version"), version));
        args_general.push((String::from_str("uptime"), uptime_str));
        let general_body = match bundle.get_msg_attribute(
            embed_msg,
            "general-body",
            Some(&args_general),
        ) {
            Ok(s) => s,
            Err(e) => {
                return Err(HandlerError::L10N(e));
            },
        };
        proof {
            let upseq = crate::localization::spec_localize(
                old(ctx).bundle->0,
                "info-uptime"@,
                dur_args(uptime as nat),
            )->0;
            assert(crate::localization::opt_args(Some(&args_general)) =~= seq![
                ("version"@, old(ctx).version@),
                ("uptime"@, upseq),
            ]);
        }
        let config_title = match bundle.get_msg_attribute(embed_msg, "config-title", None) {
            Ok(s) => s,
            Err(e) => {
                return Err(HandlerError::L10N(e));
            },
        };
        let mut args_config: Vec<(String, String)> = Vec::new();
        args_config.push((String::from_str("langid"), locale));
        proof {
            assert(crate::localization::opt_args(Some(&args_config)) =~= seq![
                ("langid"@, old(ctx).config->0.server_specific.locale@),
            ]);
        }
        let config_body = match bundle.get_msg_attribute(embed_msg, "config-body", Some(
            &args_config,
        )) {
            Ok(s) => s,
            Err(e) => {
                return Err(HandlerError::L10N(e));
            },
        };
        let mut args_footer: Vec<(String, String)> = Vec::new();
        args_footer.push((String::from_str("id"), u64_to_string(bot_id)));
        proof {
            assert(crate::localization::opt_args(Some(&args_footer)) =~= seq![
                ("id"@, dec_digits(old(ctx).cache.user.id as nat)),
            ]);
        }
        let footer = match bundle.get_msg_attribute(embed_msg, "footer", Some(&args_footer)) {
            Ok(s) => s,
            Err(e) => {
                return Err(HandlerError::L10N(e));
            },
        };
        let mut e = crate::transport::CreateEmbed::new();
        e.title(embed_title);
        e.colour(0x0080c0);
        e.field(general_title, general_body, false);
        e.field(config_title, config_body, false);
        e.footer_text(footer);
        let mut m = crate::transport::CreateMessage::new();
        m.embed(e);
        m
    };
    send_create_message(ctx, msg.channel_id, built);
    Ok(())
}

/// The help text for a known command: its description, and its usage line
/// when it takes arguments.
pub open spec fn cmd_help_text(name: Seq<char>) -> Option<Seq<char>> {
    if name == "ping"@ {
        Some("Replies `Pong!` with some information about the latency"@)
    } else if name == "info"@ {
        Some("Get information on the bot and it's current state"@)
    } else if name == "say"@ {
        Some(
            "Makes the bot say a message in a channel. If no channel is specified, it sends the message to the current channel.\nUsage: `[channel] <msg>`"@,
        )
    } else if name == "avatar"@ {
        Some("Get the avatar of an user\nUsage: `<user>`"@)
    } else if name == "setactivity"@ {
        Some(
            "Set a new activity (playing ...) for the bot. Running this command without an argument will remove any activity.\nUsage: `[activity]`"@,
        )
    } else if name == "kill"@ {
        Some("Shutdown the bot"@)
    } else if name == "restart"@ {
        Some("Restart the shards. This will not restart the main process."@)
    } else if name == "gif"@ {
        Some("Get the most popular gif with an optional tag\nUsage: `[tags]`"@)
    } else if name == "gifrandom"@ {
        Some("Get a random gif with an optional tag\nUsage: `[tags]`"@)
    } else if name == "flipcoin"@ {
        Some("Flip a virtual coin"@)
    } else if name == "roll"@ {
        Some("Roll virtual dice\nUsage: `[num of dice]d<num of sides>[modifier (+ or - a number)]`"@)
    } else {
        None
    }
}

/// The command a help request asks about: its first argument token.
pub open spec fn help_topic(msg: Message) -> Seq<char> {
    token_at(msg.content@, after_token(msg.content@, 0))
}

/// Whether an embed is the command overview: the four groups, each with
/// its commands, and the individual-help tip.
pub open spec fn help_embed_matches(e: crate::transport::CreateEmbed) -> bool {
    &&& e.title matches Some(t) && t@ == "Commands"@
    &&& e.colour == info_colour()
    &&& e.fields@.len() == 4
    &&& e.fields@[0].0@ == "General"@ && e.fields@[0].1@ == "ping, info, say"@ && e.fields@[0].2
        == false
    &&& e.fields@[1].0@ == "User"@ && e.fields@[1].1@ == "avatar"@ && e.fields@[1].2 == false
    &&& e.fields@[2].0@ == "Owner"@ && e.fields@[2].1@ == "setactivity, kill, restart"@
        && e.fields@[2].2 == false
    &&& e.fields@[3].0@ == "Fun"@ && e.fields@[3].1@ == "gif, gifrandom, flipcoin, roll"@
        && e.fields@[3].2 == false
    &&& e.footer matches Some(f) && f@
        == "Type the name of a command to get more info about it"@
}

/// Lists the command groups, or describes the named command; never fails.
pub fn help(ctx: &mut Context, msg: &Message) -> (r: Result<(), HandlerError>)
    ensures
        r is Ok,
        help_topic(*msg).len() == 0 ==> (final(ctx).http.sent@.last().1 matches
            MessageData::CreateMessage(cm) && cm._embed matches Some(e) && help_embed_matches(e)
            && crate::commands::sent_create(*old(ctx), *final(ctx), msg.channel_id.0, cm)),
        help_topic(*msg).len() > 0 ==> sent_str(
            *old(ctx),
            *final(ctx),
            msg.channel_id.0,
            match cmd_help_text(help_topic(*msg)) {
                Some(t) => t,
                None => "No command with that name was found."@,
            },
        ),
{
    let v = crate::text::chars_of(msg.content.as_str());
    let mut p1: usize = 0;
    while p1 < v.len() && v[p1] != ' '
        invariant
            p1 <= v@.len(),
            v@ == msg.content@,
            crate::arguments::find_space(msg.content@, 0) == crate::arguments::find_space(
                msg.content@,
                p1 as int,
            ),
        decreases v@.len() - p1,
    {
        p1 = p1 + 1;
    }
    let start: usize = if p1 < v.len() {
        p1 + 1
    } else {
        v.len()
    };
    proof {
        assert(start as int == after_token(msg.content@, 0));
    }
    let mut te: usize = start;
    while te < v.len() && v[te] != ' '
        invariant
            start <= te <= v@.len(),
            v@ == msg.content@,
            crate::arguments::find_space(msg.content@, start as int)
                == crate::arguments::find_space(msg.content@, te as int),
        decreases v@.len() - te,
    {
        te = te + 1;
    }
    proof {
        crate::arguments::lemma_find_space_range(msg.content@, start as int);
    }
    let topic = crate::text::subchars(&v, start, te);
    proof {
        assert(topic@ =~= help_topic(*msg));
    }
    if topic.len() == 0 {
        let mut e = crate::transport::CreateEmbed::new();
        e.title(String::from_str("Commands"));
        e.colour(0x0080c0);
        e.field(String::from_str("General"), String::from_str("ping, info, say"), false);
        e.field(String::from_str("User"), String::from_str("avatar"), false);
        e.field(
            String::from_str("Owner"),
            String::from_str("setactivity, kill, restart"),
            false,
        );
        e.field(
            String::from_str("Fun"),
            String::from_str("gif, gifrandom, flipcoin, roll"),
            false,
        );
        e.footer_text(String::from_str("Type the name of a command to get more info about it"));
        let mut m = crate::transport::CreateMessage::new();
        m.embed(e);
        send_create_message(ctx, msg.channel_id, m);
        Ok(())
    } else {
        let reply: String = if crate::text::vec_str_eq(&topic, "ping") {
            String::from_str("Replies `Pong!` with some information about the latency")
        } else if crate::text::vec_str_eq(&topic, "info") {
            String::from_str("Get information on the bot and it's current state")
        } else if crate::text::vec_str_eq(&topic, "say") {
            String::from_str(
                "Makes the bot say a message in a channel. If no channel is specified, it sends the message to the current channel.\nUsage: `[channel] <msg>`",
            )
        } else if crate::text::vec_str_eq(&topic, "avatar") {
            String::from_str("Get the avatar of an user\nUsage: `<user>`")
        } else if crate::text::vec_str_eq(&topic, "setactivity") {
            String::from_str(
                "Set a new activity (playing ...) for the bot. Running this command without an argument will remove any activity.\nUsage: `[activity]`",
            )
        } else if crate::text::vec_str_eq(&topic, "kill") {
            String::from_str("Shutdown the bot")
        } else if crate::text::vec_str_eq(&topic, "restart") {
            String::from_str("Restart the shards. This will not restart the main process.")
        } else if crate::text::vec_str_eq(&topic, "gif") {
            String::from_str("Get the most popular gif with an optional tag\nUsage: `[tags]`")
        } else if crate::text::vec_str_eq(&topic, "gifrandom") {
            String::from_str("Get a random gif with an optional tag\nUsage: `[tags]`")
        } else if crate::text::vec_str_eq(&topic, "flipcoin") {
            String::from_str("Flip a virtual coin")
        } else if crate::text::vec_str_eq(&topic, "roll") {
            String::from_str(
                "Roll virtual dice\nUsage: `[num of dice]d<num of sides>[modifier (+ or - a number)]`",
            )
        } else {
            String::from_str("No command with that name was found.")
        };
        send_text(ctx, msg.channel_id, reply);
        Ok(())
    }
}

/// What `say` sends, when it can: the target channel and the text.
pub open spec fn say_reply(ctx: Context, msg: Message) -> Option<(u64, Seq<char>)> {
    let s = msg.content@;
    let p1 = after_token(s, 0);
    match spec_resolve_ref(token_at(s, p1), dir_view(ctx.channel_directory@)) {
        Some(id) => match ctx.http.channel {
            None => None,
            Some(Channel::Guild(g)) => if msg.guild_id != Some(g.guild_id) {
                with_channel(msg.channel_id.0, ctx_localize(ctx, "external-guild-channel"@, Seq::empty()))
            } else {
                let p2 = after_token(s, p1);
                if p2 < s.len() {
                    Some((id, s.subrange(p2, s.len() as int)))
                } else {
                    with_channel(msg.channel_id.0, ctx_localize(ctx, "missing-message"@, Seq::empty()))
                }
            },
            Some(_) => with_channel(msg.channel_id.0, ctx_localize(ctx, "not-guild-channel"@, Seq::empty())),
        },
        None => if p1 < s.len() {
            Some((msg.channel_id.0, s.subrange(p1, s.len() as int)))
        } else {
            with_channel(msg.channel_id.0, ctx_localize(ctx, "missing-message"@, Seq::empty()))
        },
    }
}

/// Pairs a channel with an optional reply.
pub open spec fn with_channel(ch: u64, o: Option<Seq<char>>) -> Option<(u64, Seq<char>)> {
    match o {
        Some(x) => Some((ch, x)),
        None => None,
    }
}

/// Sends a message, to a referenced guild channel in the same guild, or to
/// the current channel; refuses channels of other guilds and channels that
/// are not in a guild.
pub fn say(ctx: &mut Context, msg: &Message) -> (r: Result<(), HandlerError>)
    ensures
        match r {
            Ok(()) => say_reply(*old(ctx), *msg) matches Some((ch, reply)) && sent_str(
                *old(ctx),
                *final(ctx),
                ch,
                reply,
            ),
            Err(e) => *final(ctx) == *old(ctx) && say_reply(*old(ctx), *msg) is None && (e matches
                HandlerError::Transport(_) || e matches HandlerError::L10N(_)),
        },
{
    let mut args = Args::new(msg.content.as_str());
    args.advance();
    let channel_id: ChannelId = match args.parse_ref(&ctx.channel_directory) {
        Some(id) => {
            let chan = match ChannelId(id).to_channel(&ctx.http) {
                Ok(c) => c,
                Err(e) => {
                    return Err(HandlerError::Transport(e));
                },
            };
            match chan {
                Channel::Guild(guild_channel) => {
                    let same = match msg.guild_id {
                        Some(g) => g == guild_channel.guild_id,
                        None => false,
                    };
                    if !same {
                        let reply = match ctx.localize_msg("external-guild-channel", None) {
                            Ok(s) => s,
                            Err(e) => {
                                return Err(HandlerError::L10N(e));
                            },
                        };
                        send_text(ctx, msg.channel_id, reply);
                        return Ok(());
                    }
                    args.advance();
                    ChannelId(id)
                },
                _ => {
                    let reply = match ctx.localize_msg("not-guild-channel", None) {
                        Ok(s) => s,
                        Err(e) => {
                            return Err(HandlerError::L10N(e));
                        },
                    };
                    send_text(ctx, msg.channel_id, reply);
                    return Ok(());
                },
            }
        },
        None => msg.channel_id,
    };
    match args.remains() {
        Some(tail) => {
            send_text(ctx, channel_id, tail);
        },
        None => {
            let reply = match ctx.localize_msg("missing-message", None) {
                Ok(s) => s,
                Err(e) => {
                    return Err(HandlerError::L10N(e));
                },
            };
            send_text(ctx, msg.channel_id, reply);
        },
    }
    Ok(())
}

} // verus!
