//! The user commands: `avatar`.

use vstd::prelude::*;
use crate::arguments::{Args, after_token, token_at, spec_resolve_ref};
use crate::commands::{HandlerError, dir_view, send_text, sent_str};
use crate::text::dec_digits;
use crate::transport::{Context, Message, UserId, ctx_localize};

verus! {

/// What `avatar` replies: a CDN URL for a custom avatar, and a localized
/// notice for every other outcome.
pub open spec fn avatar_reply(ctx: Context, msg: Message) -> Option<Seq<char>> {
    let s = msg.content@;
    let p1 = after_token(s, 0);
    match spec_resolve_ref(token_at(s, p1), dir_view(ctx.user_directory@)) {
        None => ctx_localize(ctx, "missing-user"@, Seq::empty()),
        Some(uid) => match ctx.http.user {
            None => ctx_localize(ctx, "wrong-user-id"@, Seq::empty()),
            Some(u) => match u.avatar {
                Some(av) => Some(
                    "https://cdn.discordapp.com/avatars/"@ + dec_digits(uid as nat) + "/"@ + av@
                        + ".png?size=2048"@,
                ),
                None => ctx_localize(ctx, "no-custom-avatar"@, Seq::empty()),
            },
        },
    }
}

/// Replies with the avatar URL of the referenced user; an unknown
/// reference, a failed lookup or a default avatar each yield a localized
/// notice instead. Every outcome is a reply.
pub fn avatar(ctx: &mut Context, msg: &Message) -> (r: Result<(), HandlerError>)
    ensures
        match r {
            Ok(()) => avatar_reply(*old(ctx), *msg) matches Some(reply) && sent_str(
                *old(ctx),
                *final(ctx),
                msg.channel_id.0,
                reply,
            ),
            Err(e) => *final(ctx) == *old(ctx) && avatar_reply(*old(ctx), *msg) is None && e
                matches HandlerError::L10N(_),
        },
{
    let mut args = Args::new(msg.content.as_str());
    args.advance();
    let reply: String = match args.parse_ref(&ctx.user_directory) {
        Some(uid) => {
            match UserId(uid).to_user(&ctx.http) {
                Ok(user) => match &user.avatar {
                    Some(avatar_id) => {
                        let mut url = String::from_str("https://cdn.discordapp.com/avatars/");
                        let digits = crate::text::u64_to_string(uid);
                        url.append(digits.as_str());
                        url.append("/");
                        url.append(avatar_id.as_str());
                        url.append(".png?size=2048");
                        proof {
                            assert(url@ =~= avatar_reply(*ctx, *msg)->0);
                        }
                        url
                    },
                    None => {
                        match ctx.localize_msg("no-custom-avatar", None) {
                            Ok(s) => s,
                            Err(e) => {
                                return Err(HandlerError::L10N(e));
                            },
                        }
                    },
                },
                Err(_) => {
                    match ctx.localize_msg("wrong-user-id", None) {
                        Ok(s) => s,
                        Err(e) => {
                            return Err(HandlerError::L10N(e));
                        },
                    }
                },
            }
        },
        None => {
            match ctx.localize_msg("missing-user", None) {
                Ok(s) => s,
                Err(e) => {
                    return Err(HandlerError::L10N(e));
                },
            }
        },
    };
    send_text(ctx, msg.channel_id, reply);
    Ok(())
}

} // verus!
