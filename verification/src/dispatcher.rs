//! The command registry and dispatcher: prefix matching, name resolution,
//! the pre-execution gates, routing to the handlers, and the log lines the
//! dispatch emits.

use vstd::prelude::*;
use crate::arguments::{after_token, find_space, token_count};
use crate::commands::HandlerError;
use crate::commands::fun::gif::{GifRequest, GifSearchType, get_gif, spec_has_giphy_key};
use crate::text::{chars_of, dec_digits, subchars, u64_to_string, vec_str_eq};
use crate::transport::{Context, Message};

verus! {

/// Where a dispatched message ended up.
#[derive(Debug)]
pub enum DispatchOutcome {
    /// No prefix, or no such command: a silent terminal.
    Ignored,
    /// An owners-only command from a non-owner.
    RejectedOwner,
    /// Fewer arguments than the command requires.
    RejectedMinArgs,
    /// A command needing a coarse permission the author lacks.
    RejectedPermission,
    /// A command whose pre-check failed.
    RejectedCheck,
    /// The handler ran and succeeded.
    Completed,
    /// The handler ran and failed, or could not be run at all.
    Failed(HandlerError),
    /// The command needs an HTTP response before it can finish.
    NeedsHttp(GifRequest),
}

/// What one dispatch produced: the outcome and the log lines, each a
/// target and a body.
#[derive(Debug)]
pub struct DispatchReport {
    pub outcome: DispatchOutcome,
    pub log_before: Option<(String, String)>,
    pub log_after: Option<String>,
}

/// The ASCII-lowercased counterpart of a character.
pub open spec fn spec_lower_char(c: char) -> char {
    if 65 <= c as int && c as int <= 90 {
        ((c as int) + 32) as char
    } else {
        c
    }
}

/// A text ASCII-lowercased.
pub open spec fn lower_ascii(s: Seq<char>) -> Seq<char> {
    s.map_values(|c: char| spec_lower_char(c))
}

fn to_lower_char(c: char) -> (r: char)
    ensures
        r == spec_lower_char(c),
{
    match c {
        'A' => 'a',
        'B' => 'b',
        'C' => 'c',
        'D' => 'd',
        'E' => 'e',
        'F' => 'f',
        'G' => 'g',
        'H' => 'h',
        'I' => 'i',
        'J' => 'j',
        'K' => 'k',
        'L' => 'l',
        'M' => 'm',
        'N' => 'n',
        'O' => 'o',
        'P' => 'p',
        'Q' => 'q',
        'R' => 'r',
        'S' => 's',
        'T' => 't',
        'U' => 'u',
        'V' => 'v',
        'W' => 'w',
        'X' => 'x',
        'Y' => 'y',
        'Z' => 'z',
        other => other,
    }
}

/// Whether the message begins with the configured prefix; false with no
/// configuration installed.
pub open spec fn prefix_matched(ctx: Context, msg: Message) -> bool {
    match ctx.config {
        None => false,
        Some(c) => {
            let p = c.server_specific.prefix@;
            p.len() <= msg.content@.len() && msg.content@.subrange(0, p.len() as int) == p
        },
    }
}

/// The command name the message invokes: the token after the prefix,
/// lowercased.
pub open spec fn cmd_name(ctx: Context, msg: Message) -> Seq<char> {
    match ctx.config {
        None => Seq::empty(),
        Some(c) => {
            let p = c.server_specific.prefix@.len() as int;
            lower_ascii(msg.content@.subrange(p, find_space(msg.content@, p)))
        },
    }
}

/// How many delimiter-separated tokens follow the command name.
pub open spec fn args_after_name(ctx: Context, msg: Message) -> nat {
    match ctx.config {
        None => 0,
        Some(c) => token_count(
            msg.content@,
            after_token(msg.content@, c.server_specific.prefix@.len() as int),
        ),
    }
}

pub open spec fn cmd_known(name: Seq<char>) -> bool {
    ||| name == "help"@
    ||| name == "ping"@
    ||| name == "info"@
    ||| name == "say"@
    ||| name == "avatar"@
    ||| name == "setactivity"@
    ||| name == "kill"@
    ||| name == "restart"@
    ||| name == "gif"@
    ||| name == "gifrandom"@
    ||| name == "flipcoin"@
    ||| name == "roll"@
}

pub open spec fn cmd_owners_only(name: Seq<char>) -> bool {
    ||| name == "setactivity"@
    ||| name == "kill"@
    ||| name == "restart"@
}

pub open spec fn cmd_min_args(name: Seq<char>) -> nat {
    if name == "say"@ || name == "avatar"@ {
        1
    } else {
        0
    }
}

pub open spec fn cmd_admin_only(name: Seq<char>) -> bool {
    name == "say"@
}

pub open spec fn cmd_needs_giphy(name: Seq<char>) -> bool {
    name == "gif"@ || name == "gifrandom"@
}

/// Whether the author is a configured owner.
pub open spec fn author_is_owner(ctx: Context, msg: Message) -> bool {
    match ctx.config {
        None => false,
        Some(c) => match c.global.superusers {
            None => false,
            Some(list) => list@.contains(msg.author_id),
        },
    }
}

/// The target of the pre-execution log line.
pub open spec fn before_target(msg: Message) -> Seq<char> {
    if msg.guild_id is Some {
        "cmd-guild"@
    } else {
        "cmd-not-guild"@
    }
}

/// The body of the pre-execution log line: the channel (and guild, inside
/// one) in brackets, then author, author id and the full message.
pub open spec fn before_body(msg: Message) -> Seq<char> {
    (match msg.guild_id {
        Some(g) => "["@ + dec_digits(g as nat) + "-"@ + dec_digits(msg.channel_id.0 as nat)
            + "] "@,
        None => "["@ + dec_digits(msg.channel_id.0 as nat) + "] "@,
    }) + msg.author_name@ + "<"@ + dec_digits(msg.author_id as nat) + "> -> "@ + msg.content@
}

fn make_before(msg: &Message) -> (r: (String, String))
    ensures
        r.0@ == before_target(*msg),
        r.1@ == before_body(*msg),
{
    let target = match &msg.guild_id {
        Some(_) => String::from_str("cmd-guild"),
        None => String::from_str("cmd-not-guild"),
    };
    let mut body = String::new();
    match &msg.guild_id {
        Some(g) => {
            body.append("[");
            let gd = u64_to_string(*g);
            body.append(gd.as_str());
            body.append("-");
            let cd = u64_to_string(msg.channel_id.0);
            body.append(cd.as_str());
            body.append("] ");
        },
        None => {
            body.append("[");
            let cd = u64_to_string(msg.channel_id.0);
            body.append(cd.as_str());
            body.append("] ");
        },
    }
    body.append(msg.author_name.as_str());
    body.append("<");
    let ad = u64_to_string(msg.author_id);
    body.append(ad.as_str());
    body.append("> -> ");
    body.append(msg.content.as_str());
    assert(body@ =~= before_body(*msg));
    (target, body)
}

/// The description of a localization error, payloads included.
pub open spec fn l10n_note(e: crate::localization::L10NError) -> Seq<char> {
    match e {
        crate::localization::L10NError::MissingFromShareMap =>
            "the localization bundle is not installed"@,
        crate::localization::L10NError::MissingMsg(m) => "the message \""@ + m@
            + "\" was not found"@,
        crate::localization::L10NError::MissingValue(m) => "the message \""@ + m@
            + "\" does not have a value"@,
        crate::localization::L10NError::MissingAttribute(m, a) => "the message \""@ + m@
            + "\" does not have the \""@ + a@ + "\" attribute"@,
        crate::localization::L10NError::LanguageIdentifierError(l) => "wrong locale: "@ + l@,
        crate::localization::L10NError::NotLocalizedLocale(l) => "locale not translated: "@ + l@,
    }
}

/// The description of a configuration error, payloads included.
pub open spec fn config_note(e: crate::config::ConfigError) -> Seq<char> {
    match e {
        crate::config::ConfigError::Io(m) => "the config file could not be accessed: "@ + m@,
        crate::config::ConfigError::Deserialize(m) =>
            "the config file could not be deserialized: "@ + m@,
        crate::config::ConfigError::MissingFromShareMap => "the configuration is not installed"@,
    }
}

/// The description of a handler error for the post-execution warning line,
/// carrying the error's payloads.
pub open spec fn error_note(e: HandlerError) -> Seq<char> {
    match e {
        HandlerError::L10N(le) => l10n_note(le),
        HandlerError::Config(ce) => config_note(ce),
        HandlerError::Transport(_) => "a platform lookup failed"@,
        HandlerError::ShardManager(_) => "the shard manager is not installed"@,
        HandlerError::MissingProcessInfo => "process information was unavailable"@,
        HandlerError::MissingGiphyKey => "no Giphy key is configured"@,
        HandlerError::GiphyResponseInvalid => "the Giphy response could not be read"@,
    }
}

/// The post-execution warning line for a failed command.
pub open spec fn after_line(name: Seq<char>, e: HandlerError) -> Seq<char> {
    "Error in "@ + name + ": "@ + error_note(e)
}

impl HandlerError {
    pub fn describe(&self) -> (r: String)
        ensures
            r@ == error_note(*self),
    {
        match self {
            HandlerError::L10N(le) => {
                match le {
                    crate::localization::L10NError::MissingFromShareMap => String::from_str(
                        "the localization bundle is not installed",
                    ),
                    crate::localization::L10NError::MissingMsg(m) => {
                        let mut out = String::from_str("the message \"");
                        out.append(m.as_str());
                        out.append("\" was not found");
                        assert(out@ =~= error_note(*self));
                        out
                    },
                    crate::localization::L10NError::MissingValue(m) => {
                        let mut out = String::from_str("the message \"");
                        out.append(m.as_str());
                        out.append("\" does not have a value");
                        assert(out@ =~= error_note(*self));
                        out
                    },
                    crate::localization::L10NError::MissingAttribute(m, a) => {
                        let mut out = String::from_str("the message \"");
                        out.append(m.as_str());
                        out.append("\" does not have the \"");
                        out.append(a.as_str());
                        out.append("\" attribute");
                        assert(out@ =~= error_note(*self));
                        out
                    },
                    crate::localization::L10NError::LanguageIdentifierError(l) => {
                        let mut out = String::from_str("wrong locale: ");
                        out.append(l.as_str());
                        assert(out@ =~= error_note(*self));
                        out
                    },
                    crate::localization::L10NError::NotLocalizedLocale(l) => {
                        let mut out = String::from_str("locale not translated: ");
                        out.append(l.as_str());
                        assert(out@ =~= error_note(*self));
                        out
                    },
                }
            },
            HandlerError::Config(ce) => {
                match ce {
                    crate::config::ConfigError::Io(m) => {
                        let mut out = String::from_str("the config file could not be accessed: ");
                        out.append(m.as_str());
                        assert(out@ =~= error_note(*self));
                        out
                    },
                    crate::config::ConfigError::Deserialize(m) => {
                        let mut out = String::from_str(
                            "the config file could not be deserialized: ",
                        );
                        out.append(m.as_str());
                        assert(out@ =~= error_note(*self));
                        out
                    },
                    crate::config::ConfigError::MissingFromShareMap => String::from_str(
                        "the configuration is not installed",
                    ),
                }
            },
            HandlerError::Transport(_) => String::from_str("a platform lookup failed"),
            HandlerError::ShardManager(_) => String::from_str(
                "the shard manager is not installed",
            ),
            HandlerError::MissingProcessInfo => String::from_str(
                "process information was unavailable",
            ),
            HandlerError::MissingGiphyKey => String::from_str("no Giphy key is configured"),
            HandlerError::GiphyResponseInvalid => String::from_str(
                "the Giphy response could not be read",
            ),
        }
    }
}

fn make_after(name: &str, e: &HandlerError) -> (r: String)
    ensures
        r@ == after_line(name@, *e),
{
    let mut line = String::from_str("Error in ");
    line.append(name);
    line.append(": ");
    let note = e.describe();
    line.append(note.as_str());
    assert(line@ =~= after_line(name@, *e));
    line
}

/// What a completed command did, by name: each branch restates the
/// handler's success contract, so a completed dispatch carries the whole
/// behavior of the command it ran.
pub open spec fn completed_behavior(name: Seq<char>, a: Context, b: Context, msg: Message) -> bool {
    if name == "help"@ {
        if crate::commands::general::help_topic(msg).len() == 0 {
            b.http.sent@.last().1 matches crate::transport::MessageData::CreateMessage(cm)
                && cm._embed matches Some(e) && crate::commands::general::help_embed_matches(e)
                && crate::commands::sent_create(a, b, msg.channel_id.0, cm)
        } else {
            crate::commands::sent_str(
                a,
                b,
                msg.channel_id.0,
                match crate::commands::general::cmd_help_text(
                    crate::commands::general::help_topic(msg),
                ) {
                    Some(t) => t,
                    None => "No command with that name was found."@,
                },
            )
        }
    } else if name == "ping"@ {
        crate::commands::general::ping_reply(a, msg) matches Some(reply)
            && crate::commands::sent_str(a, b, msg.channel_id.0, reply)
    } else if name == "info"@ {
        b.http.sent@.last().1 matches crate::transport::MessageData::CreateMessage(cm)
            && cm._embed matches Some(e) && crate::commands::general::info_embed_matches(a, e)
            && crate::commands::sent_create(a, b, msg.channel_id.0, cm)
    } else if name == "say"@ {
        crate::commands::general::say_reply(a, msg) matches Some((ch, reply))
            && crate::commands::sent_str(a, b, ch, reply)
    } else if name == "avatar"@ {
        crate::commands::user::avatar_reply(a, msg) matches Some(reply)
            && crate::commands::sent_str(a, b, msg.channel_id.0, reply)
    } else if name == "setactivity"@ {
        let tail = crate::commands::owner::msg_tail(msg);
        ({
            &&& crate::commands::owner::set_activity_effects(a, b, tail)
            &&& crate::transport::ctx_localize(
                a,
                crate::commands::owner::set_activity_reply_id(tail),
                Seq::empty(),
            ) matches Some(reply) && crate::commands::owner::http_sent_str(
                a,
                b,
                msg.channel_id.0,
                reply,
            )
        })
    } else if name == "kill"@ {
        ({
            &&& crate::transport::ctx_localize(a, "shutting-down"@, Seq::empty()) matches Some(
                reply,
            ) && crate::commands::owner::http_sent_str(a, b, msg.channel_id.0, reply)
            &&& a.shard_manager matches Some(sm) && b.shard_manager matches Some(sm2)
                && sm2.shutdown && sm2.runners == sm.runners
        })
    } else if name == "restart"@ {
        ({
            &&& crate::transport::ctx_localize(a, "restarting-shards"@, Seq::empty()) matches
                Some(reply) && crate::commands::owner::http_sent_str(a, b, msg.channel_id.0, reply)
            &&& a.shard_manager matches Some(sm) && b.shard_manager matches Some(sm2)
                && sm2.restarted@ == sm.restarted@ + sm.runners@.map_values(
                (|p: (u64, crate::transport::ShardRunnerInfo)| p.0),
            )
        })
    } else if name == "flipcoin"@ {
        match crate::commands::fun::random::flip_bit(a.random) {
            Some(bit) => crate::commands::fun::random::flip_reply(a, bit) matches Some(reply)
                && crate::commands::owner::http_sent_str(a, b, msg.channel_id.0, reply),
            None => exists|bit: bool|
                (#[trigger] crate::commands::fun::random::flip_reply(a, bit)) matches Some(reply)
                    && crate::commands::owner::http_sent_str(a, b, msg.channel_id.0, reply),
        }
    } else if name == "roll"@ {
        match crate::commands::fun::random::roll_request(msg) {
            crate::commands::fun::random::RollOutcome::Roll { dice, sides, modifier } => exists|
                res: crate::commands::fun::random::DiceRollResult,
            |
                ({
                    &&& res.rolls@.len() == dice
                    &&& forall|i: int|
                        0 <= i < res.rolls@.len() ==> 1 <= #[trigger] res.rolls@[i] <= sides
                    &&& crate::commands::owner::http_sent_str(
                        a,
                        b,
                        msg.channel_id.0,
                        #[trigger] crate::commands::fun::random::spec_render(res),
                    )
                }),
            _ => b.http.sent@.len() == a.http.sent@.len() + 1,
        }
    } else {
        true
    }
}

/// Why a command can fail, by name: each branch restates the handler's own
/// failure contract (or the dispatcher's refusal to run `kill` without a
/// shard manager), so a failed dispatch is tied to a real failure
/// condition of the incoming state.
pub open spec fn failed_behavior(
    name: Seq<char>,
    a: Context,
    b: Context,
    msg: Message,
    e: HandlerError,
) -> bool {
    if name == "help"@ {
        false
    } else if name == "ping"@ {
        b == a && crate::commands::general::ping_reply(a, msg) is None && e matches
            HandlerError::L10N(_)
    } else if name == "info"@ {
        b == a && match e {
            HandlerError::MissingProcessInfo => a.process_start_secs is None,
            HandlerError::Config(ce) => a.process_start_secs is Some && a.config is None && ce
                == crate::config::ConfigError::MissingFromShareMap,
            HandlerError::L10N(le) => a.process_start_secs is Some && a.config is Some && (le
                is MissingFromShareMap <==> a.bundle is None) && (a.bundle is Some
                ==> !crate::commands::general::info_available(a)),
            _ => false,
        }
    } else if name == "say"@ {
        b == a && crate::commands::general::say_reply(a, msg) is None && (e matches
            HandlerError::Transport(_) || e matches HandlerError::L10N(_))
    } else if name == "avatar"@ {
        b == a && crate::commands::user::avatar_reply(a, msg) is None && e matches
            HandlerError::L10N(_)
    } else if name == "setactivity"@ {
        match e {
            HandlerError::Config(ce) => a.config is None && ce
                == crate::config::ConfigError::MissingFromShareMap && b == a,
            HandlerError::L10N(_) => crate::commands::owner::set_activity_effects(
                a,
                b,
                crate::commands::owner::msg_tail(msg),
            ) && b.http == a.http && crate::transport::ctx_localize(
                a,
                crate::commands::owner::set_activity_reply_id(
                    crate::commands::owner::msg_tail(msg),
                ),
                Seq::empty(),
            ) is None,
            _ => false,
        }
    } else if name == "kill"@ {
        match e {
            HandlerError::ShardManager(_) => a.shard_manager is None && b == a,
            HandlerError::L10N(_) => a.shard_manager is Some && b == a
                && crate::transport::ctx_localize(a, "shutting-down"@, Seq::empty()) is None,
            _ => false,
        }
    } else if name == "restart"@ {
        match e {
            HandlerError::L10N(_) => b == a && crate::transport::ctx_localize(
                a,
                "restarting-shards"@,
                Seq::empty(),
            ) is None,
            HandlerError::ShardManager(_) => ({
                &&& a.shard_manager is None
                &&& crate::transport::ctx_localize(a, "restarting-shards"@, Seq::empty())
                    matches Some(reply) && crate::commands::owner::http_sent_str(
                    a,
                    b,
                    msg.channel_id.0,
                    reply,
                )
                &&& crate::commands::owner::kill_frame(a, b)
                &&& b.shard_manager == a.shard_manager
            }),
            _ => false,
        }
    } else if name == "gif"@ || name == "gifrandom"@ {
        false
    } else if name == "flipcoin"@ {
        ({
            &&& e matches HandlerError::L10N(_)
            &&& crate::commands::fun::random::ctx_same_but_http_random(a, b)
            &&& b.http == a.http
            &&& (b.random == a.random || crate::commands::fun::random::rand_stepped(
                a.random,
                b.random,
            ))
            &&& exists|bit: bool|
                (#[trigger] crate::commands::fun::random::flip_reply(a, bit)) is None
        })
    } else if name == "roll"@ {
        ({
            &&& e matches HandlerError::L10N(_)
            &&& b == a
            &&& match crate::commands::fun::random::roll_request(msg) {
                crate::commands::fun::random::RollOutcome::Roll { .. } => false,
                crate::commands::fun::random::RollOutcome::NoDie =>
                    crate::transport::ctx_localize(a, "roll-no-die"@, Seq::empty()) is None,
                crate::commands::fun::random::RollOutcome::NoSide =>
                    crate::transport::ctx_localize(a, "roll-no-side"@, Seq::empty()) is None,
                crate::commands::fun::random::RollOutcome::Bad => crate::transport::ctx_localize(
                    a,
                    "roll-parsing-error"@,
                    Seq::empty(),
                ) is None,
            }
        })
    } else {
        true
    }
}

/// Routes one inbound message. A message without the prefix, or naming no
/// command, is ignored untouched; a failed gate stops before the handler
/// with nothing sent; otherwise the pre-execution line is emitted and the
/// handler runs, a failure becoming a warning line rather than an error.
pub fn dispatch(ctx: &mut Context, msg: &Message) -> (r: DispatchReport)
    ensures
        !prefix_matched(*old(ctx), *msg) ==> r.outcome is Ignored,
        prefix_matched(*old(ctx), *msg) && !cmd_known(cmd_name(*old(ctx), *msg))
            ==> r.outcome is Ignored,
        r.outcome is Ignored ==> *final(ctx) == *old(ctx) && r.log_before is None
            && r.log_after is None,
        r.outcome is RejectedOwner ==> ({
            &&& *final(ctx) == *old(ctx)
            &&& r.log_before is None
            &&& prefix_matched(*old(ctx), *msg)
            &&& cmd_owners_only(cmd_name(*old(ctx), *msg))
            &&& !author_is_owner(*old(ctx), *msg)
        }),
        r.outcome is RejectedMinArgs ==> ({
            &&& *final(ctx) == *old(ctx)
            &&& r.log_before is None
            &&& prefix_matched(*old(ctx), *msg)
            &&& args_after_name(*old(ctx), *msg) < cmd_min_args(cmd_name(*old(ctx), *msg))
        }),
        r.outcome is RejectedPermission ==> ({
            &&& *final(ctx) == *old(ctx)
            &&& r.log_before is None
            &&& cmd_admin_only(cmd_name(*old(ctx), *msg))
            &&& !msg.author_is_admin
        }),
        r.outcome is RejectedCheck ==> ({
            &&& *final(ctx) == *old(ctx)
            &&& r.log_before is None
            &&& cmd_needs_giphy(cmd_name(*old(ctx), *msg))
            &&& !spec_has_giphy_key(*old(ctx))
        }),
        (r.outcome is Completed || r.outcome is Failed || r.outcome is NeedsHttp) ==> ({
            &&& prefix_matched(*old(ctx), *msg)
            &&& cmd_known(cmd_name(*old(ctx), *msg))
            &&& (cmd_owners_only(cmd_name(*old(ctx), *msg)) ==> author_is_owner(
                *old(ctx),
                *msg,
            ))
            &&& args_after_name(*old(ctx), *msg) >= cmd_min_args(cmd_name(*old(ctx), *msg))
            &&& (cmd_admin_only(cmd_name(*old(ctx), *msg)) ==> msg.author_is_admin)
            &&& (cmd_needs_giphy(cmd_name(*old(ctx), *msg)) ==> spec_has_giphy_key(*old(ctx)))
            &&& r.log_before matches Some((t, b)) && t@ == before_target(*msg) && b@
                == before_body(*msg)
        }),
        prefix_matched(*old(ctx), *msg) && cmd_known(cmd_name(*old(ctx), *msg)) ==> ({
            let name = cmd_name(*old(ctx), *msg);
            &&& !(r.outcome is Ignored)
            &&& (cmd_owners_only(name) && !author_is_owner(*old(ctx), *msg)
                ==> r.outcome is RejectedOwner)
            &&& ((cmd_owners_only(name) ==> author_is_owner(*old(ctx), *msg))
                && args_after_name(*old(ctx), *msg) < cmd_min_args(name)
                ==> r.outcome is RejectedMinArgs)
            &&& ((cmd_owners_only(name) ==> author_is_owner(*old(ctx), *msg))
                && args_after_name(*old(ctx), *msg) >= cmd_min_args(name) && cmd_admin_only(name)
                && !msg.author_is_admin ==> r.outcome is RejectedPermission)
            &&& ((cmd_owners_only(name) ==> author_is_owner(*old(ctx), *msg))
                && args_after_name(*old(ctx), *msg) >= cmd_min_args(name) && (cmd_admin_only(
                name,
            ) ==> msg.author_is_admin) && cmd_needs_giphy(name) && !spec_has_giphy_key(
                *old(ctx),
            ) ==> r.outcome is RejectedCheck)
            &&& ((cmd_owners_only(name) ==> author_is_owner(*old(ctx), *msg))
                && args_after_name(*old(ctx), *msg) >= cmd_min_args(name) && (cmd_admin_only(
                name,
            ) ==> msg.author_is_admin) && (cmd_needs_giphy(name) ==> spec_has_giphy_key(
                *old(ctx),
            )) ==> (r.outcome is Completed || r.outcome is Failed || r.outcome is NeedsHttp))
        }),
        r.outcome matches DispatchOutcome::Failed(e) ==> (r.log_after matches Some(s) && s@
            == after_line(cmd_name(*old(ctx), *msg), e)) && failed_behavior(
            cmd_name(*old(ctx), *msg),
            *old(ctx),
            *final(ctx),
            *msg,
            e,
        ),
        r.outcome is Completed ==> r.log_after is None && completed_behavior(
            cmd_name(*old(ctx), *msg),
            *old(ctx),
            *final(ctx),
            *msg,
        ),
        r.outcome matches DispatchOutcome::NeedsHttp(req) ==> ({
            &&& old(ctx).config matches Some(c) && c.credentials.giphy_api_key matches Some(k)
                && req.url@ == crate::commands::fun::gif::gif_url(
                if cmd_name(*old(ctx), *msg) == "gifrandom"@ {
                    GifSearchType::Random
                } else {
                    GifSearchType::Trending
                },
                crate::commands::owner::msg_tail(*msg),
                k@,
            )
            &&& req.channel_id == msg.channel_id
            &&& *final(ctx) == *old(ctx)
        }),
{
    proof {
        reveal_strlit("help");
        reveal_strlit("ping");
        reveal_strlit("info");
        reveal_strlit("say");
        reveal_strlit("avatar");
        reveal_strlit("setactivity");
        reveal_strlit("kill");
        reveal_strlit("restart");
        reveal_strlit("gif");
        reveal_strlit("gifrandom");
        reveal_strlit("flipcoin");
        reveal_strlit("roll");
    }
    let plen: usize = match &ctx.config {
        Some(c) => {
            let p = c.get_prefix();
            let content = msg.content.as_str();
            let pv = chars_of(p);
            let cv = chars_of(content);
            if pv.len() > cv.len() {
                return DispatchReport {
                    outcome: DispatchOutcome::Ignored,
                    log_before: None,
                    log_after: None,
                };
            }
            let mut i: usize = 0;
            while i < pv.len()
                invariant
                    i <= pv@.len() <= cv@.len(),
                    pv@ == old(ctx).config->0.server_specific.prefix@,
                    cv@ == msg.content@,
                    forall|j: int| 0 <= j < i ==> pv@[j] == cv@[j],
                decreases pv@.len() - i,
            {
                if pv[i] != cv[i] {
                    proof {
                        assert(msg.content@.subrange(0, pv@.len() as int)[i as int] == cv@[
                            i as int]);
                    }
                    return DispatchReport {
                        outcome: DispatchOutcome::Ignored,
                        log_before: None,
                        log_after: None,
                    };
                }
                i = i + 1;
            }
            proof {
                assert(msg.content@.subrange(0, pv@.len() as int) =~= pv@);
            }
            pv.len()
        },
        None => {
            return DispatchReport {
                outcome: DispatchOutcome::Ignored,
                log_before: None,
                log_after: None,
            };
        },
    };
    let cv = chars_of(msg.content.as_str());
    let mut ne: usize = plen;
    while ne < cv.len() && cv[ne] != ' '
        invariant
            plen <= ne <= cv@.len(),
            cv@ == msg.content@,
            find_space(msg.content@, plen as int) == find_space(msg.content@, ne as int),
        decreases cv@.len() - ne,
    {
        ne = ne + 1;
    }
    let raw_name = subchars(&cv, plen, ne);
    let mut name: Vec<char> = Vec::new();
    let mut i: usize = 0;
    while i < raw_name.len()
        invariant
            i <= raw_name@.len(),
            name@ == lower_ascii(raw_name@.subrange(0, i as int)),
        decreases raw_name@.len() - i,
    {
        name.push(to_lower_char(raw_name[i]));
        assert(name@ =~= lower_ascii(raw_name@.subrange(0, i + 1)));
        i = i + 1;
    }
    proof {
        assert(raw_name@.subrange(0, raw_name@.len() as int) =~= raw_name@);
        assert(name@ == cmd_name(*ctx, *msg));
    }
    let known = vec_str_eq(&name, "help") || vec_str_eq(&name, "ping") || vec_str_eq(&name, "info")
        || vec_str_eq(&name, "say")
        || vec_str_eq(&name, "avatar") || vec_str_eq(&name, "setactivity") || vec_str_eq(
        &name,
        "kill",
    ) || vec_str_eq(&name, "restart") || vec_str_eq(&name, "gif") || vec_str_eq(
        &name,
        "gifrandom",
    ) || vec_str_eq(&name, "flipcoin") || vec_str_eq(&name, "roll");
    if !known {
        return DispatchReport {
            outcome: DispatchOutcome::Ignored,
            log_before: None,
            log_after: None,
        };
    }
    let owners_only = vec_str_eq(&name, "setactivity") || vec_str_eq(&name, "kill") || vec_str_eq(
        &name,
        "restart",
    );
    if owners_only {
        let is_owner: bool = match &ctx.config {
            Some(c) => match &c.global.superusers {
                Some(list) => {
                    let mut found = false;
                    let mut k: usize = 0;
                    while k < list.len()
                        invariant
                            k <= list@.len(),
                            found == exists|j: int| 0 <= j < k && list@[j] == msg.author_id,
                        decreases list@.len() - k,
                    {
                        if list[k] == msg.author_id {
                            found = true;
                        }
                        k = k + 1;
                    }
                    proof {
                        if found {
                            assert(list@.contains(msg.author_id));
                        } else {
                            assert(!list@.contains(msg.author_id)) by {
                                if list@.contains(msg.author_id) {
                                    let j = choose|j: int|
                                        0 <= j < list@.len() && list@[j] == msg.author_id;
                                    assert(false);
                                }
                            }
                        }
                    }
                    found
                },
                None => false,
            },
            None => false,
        };
        if !is_owner {
            return DispatchReport {
                outcome: DispatchOutcome::RejectedOwner,
                log_before: None,
                log_after: None,
            };
        }
    }
    let min_args: usize = if vec_str_eq(&name, "say") || vec_str_eq(&name, "avatar") {
        1
    } else {
        0
    };
    if min_args > 0 {
        let mut count: usize = 0;
        let start: usize = if ne < cv.len() {
            ne + 1
        } else {
            cv.len()
        };
        proof {
            assert(start as int == after_token(msg.content@, plen as int));
        }
        let mut p: usize = start;
        while p < cv.len()
            invariant
                start <= p <= cv@.len(),
                cv@ == msg.content@,
                count <= p,
                token_count(msg.content@, start as int) == count + token_count(
                    msg.content@,
                    p as int,
                ),
            decreases cv@.len() - p,
        {
            let mut sp: usize = p;
            while sp < cv.len() && cv[sp] != ' '
                invariant
                    p <= sp <= cv@.len(),
                    cv@ == msg.content@,
                    find_space(msg.content@, p as int) == find_space(msg.content@, sp as int),
                decreases cv@.len() - sp,
            {
                sp = sp + 1;
            }
            let nextp: usize = if sp < cv.len() {
                sp + 1
            } else {
                cv.len()
            };
            proof {
                crate::arguments::lemma_find_space_range(msg.content@, p as int);
            }
            assert(nextp as int == after_token(msg.content@, p as int));
            count = count + 1;
            p = nextp;
        }
        if count < min_args {
            return DispatchReport {
                outcome: DispatchOutcome::RejectedMinArgs,
                log_before: None,
                log_after: None,
            };
        }
    }
    if vec_str_eq(&name, "say") {
        if !msg.author_is_admin {
            return DispatchReport {
                outcome: DispatchOutcome::RejectedPermission,
                log_before: None,
                log_after: None,
            };
        }
    }
    if vec_str_eq(&name, "gif") || vec_str_eq(&name, "gifrandom") {
        if !crate::commands::fun::gif::has_giphy_api_key_check(ctx) {
            return DispatchReport {
                outcome: DispatchOutcome::RejectedCheck,
                log_before: None,
                log_after: None,
            };
        }
    }
    let before = make_before(msg);
    let handled: Result<Option<GifRequest>, HandlerError> = if vec_str_eq(&name, "help") {
        match crate::commands::general::help(ctx, msg) {
            Ok(()) => Ok(None),
            Err(e) => Err(e),
        }
    } else if vec_str_eq(&name, "ping") {
        match crate::commands::general::ping(ctx, msg) {
            Ok(()) => Ok(None),
            Err(e) => Err(e),
        }
    } else if vec_str_eq(&name, "info") {
        match crate::commands::general::info(ctx, msg) {
            Ok(()) => Ok(None),
            Err(e) => Err(e),
        }
    } else if vec_str_eq(&name, "say") {
        match crate::commands::general::say(ctx, msg) {
            Ok(()) => Ok(None),
            Err(e) => Err(e),
        }
    } else if vec_str_eq(&name, "avatar") {
        match crate::commands::user::avatar(ctx, msg) {
            Ok(()) => Ok(None),
            Err(e) => Err(e),
        }
    } else if vec_str_eq(&name, "setactivity") {
        match crate::commands::owner::set_activity(ctx, msg) {
            Ok(()) => Ok(None),
            Err(e) => Err(e),
        }
    } else if vec_str_eq(&name, "kill") {
        if ctx.shard_manager.is_some() {
            match crate::commands::owner::kill(ctx, msg) {
                Ok(()) => Ok(None),
                Err(e) => Err(e),
            }
        } else {
            Err(
                HandlerError::ShardManager(
                    crate::transport::ShardManagerError::MissingFromShareMap,
                ),
            )
        }
    } else if vec_str_eq(&name, "restart") {
        match crate::commands::owner::restart_shards(ctx, msg) {
            Ok(()) => Ok(None),
            Err(e) => Err(e),
        }
    } else if vec_str_eq(&name, "gif") {
        match get_gif(ctx, msg, GifSearchType::Trending) {
            Ok(req) => Ok(Some(req)),
            Err(e) => Err(e),
        }
    } else if vec_str_eq(&name, "gifrandom") {
        match get_gif(ctx, msg, GifSearchType::Random) {
            Ok(req) => Ok(Some(req)),
            Err(e) => Err(e),
        }
    } else if vec_str_eq(&name, "flipcoin") {
        match crate::commands::fun::random::flip_coin(ctx, msg) {
            Ok(()) => Ok(None),
            Err(e) => Err(e),
        }
    } else {
        match crate::commands::fun::random::roll(ctx, msg) {
            Ok(()) => Ok(None),
            Err(e) => Err(e),
        }
    };
    match handled {
        Ok(None) => DispatchReport {
            outcome: DispatchOutcome::Completed,
            log_before: Some(before),
            log_after: None,
        },
        Ok(Some(req)) => DispatchReport {
            outcome: DispatchOutcome::NeedsHttp(req),
            log_before: Some(before),
            log_after: None,
        },
        Err(e) => {
            let name_str = crate::text::string_from_chars(&name);
            let after = make_after(name_str.as_str(), &e);
            DispatchReport {
                outcome: DispatchOutcome::Failed(e),
                log_before: Some(before),
                log_after: Some(after),
            }
        },
    }
}

} // verus!
