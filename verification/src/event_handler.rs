//! The gateway event handler: on the ready event the configured activity,
//! when one is stored, becomes the presence.

use vstd::prelude::*;
use crate::transport::{Context, Ready, ResumedEvent};

verus! {

/// What the gateway calls on its lifecycle events: readiness applies the
/// stored activity as the presence, and a resumed session changes nothing
/// the library tracks.
pub trait EventHandler {
    fn ready(&self, ctx: &mut Context, ready: &Ready)
        ensures
            match old(ctx).config {
                Some(cfg) => match cfg.global.activity {
                    Some(a) => ({
                        &&& final(ctx).presence@.len() == old(ctx).presence@.len() + 1
                        &&& final(ctx).presence@.subrange(0, old(ctx).presence@.len() as int)
                            == old(ctx).presence@
                        &&& final(ctx).presence@.last() matches Some(s) && s@ == a@
                        &&& crate::transport::ctx_same_but_presence(*old(ctx), *final(ctx))
                    }),
                    None => *final(ctx) == *old(ctx),
                },
                None => *final(ctx) == *old(ctx),
            },
    ;

    fn resume(&self, ctx: &mut Context, ev: &ResumedEvent)
        ensures
            *final(ctx) == *old(ctx),
    ;
}

pub struct Handler;

impl Handler {
    /// Applies the stored activity, when the configuration holds one.
    pub fn on_ready(&self, ctx: &mut Context, ready: &Ready)
        ensures
            match old(ctx).config {
                Some(cfg) => match cfg.global.activity {
                    Some(a) => ({
                        &&& final(ctx).presence@.len() == old(ctx).presence@.len() + 1
                        &&& final(ctx).presence@.subrange(0, old(ctx).presence@.len() as int)
                            == old(ctx).presence@
                        &&& final(ctx).presence@.last() matches Some(s) && s@ == a@
                        &&& crate::transport::ctx_same_but_presence(*old(ctx), *final(ctx))
                    }),
                    None => *final(ctx) == *old(ctx),
                },
                None => *final(ctx) == *old(ctx),
            },
    {
        let activity: Option<String> = match &ctx.config {
            Some(cfg) => match cfg.get_activity() {
                Some(a) => Some(String::from_str(a.as_str())),
                None => None,
            },
            None => None,
        };
        match activity {
            Some(a) => {
                ctx.set_activity(a);
                proof {
                    assert(ctx.presence@.subrange(0, old(ctx).presence@.len() as int) =~= old(
                        ctx,
                    ).presence@);
                }
            },
            None => {
            },
        }
        let _ = ready;
    }

    /// A resumed session changes nothing the library tracks.
    pub fn on_resume(&self, ctx: &mut Context, ev: &ResumedEvent)
        ensures
            *final(ctx) == *old(ctx),
    {
        let _ = ctx;
        let _ = ev;
    }
}

impl EventHandler for Handler {
    fn ready(&self, ctx: &mut Context, ready: &Ready) {
        self.on_ready(ctx, ready);
    }

    fn resume(&self, ctx: &mut Context, ev: &ResumedEvent) {
        self.on_resume(ctx, ev);
    }
}

} // verus!
