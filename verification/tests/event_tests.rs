use mudibot::config::Config;
use mudibot::event_handler::{EventHandler, Handler};
use mudibot::localization::L10NBundle;
use mudibot::transport::{Context, CurrentUser, Http, Ready, ResumedEvent};

#[test]
fn ready_event() {
    let mut ctx = Context::_new(Http::_new());
    ctx.bundle = Some(L10NBundle::new("en-US").unwrap());
    ctx.config = Some(Config::default());

    Handler.ready(
        &mut ctx,
        &Ready {
            user: CurrentUser::_new(0, "TestBot".to_string()),
        },
    );

    assert_eq!(ctx.presence, vec![Some("Type $help".to_string())]);
}

#[test]
fn ready_event_but_missing_config() {
    let mut ctx = Context::_new(Http::_new());
    ctx.bundle = Some(L10NBundle::new("en-US").unwrap());

    Handler.ready(
        &mut ctx,
        &Ready {
            user: CurrentUser::_new(0, "TestBot".to_string()),
        },
    );

    assert!(ctx.presence.is_empty());
}

#[test]
fn resume_event() {
    let mut ctx = Context::_new(Http::_new());
    ctx.bundle = Some(L10NBundle::new("en-US").unwrap());

    Handler.resume(&mut ctx, &ResumedEvent {});

    assert!(ctx.presence.is_empty());
    assert!(ctx.http.sent.is_empty());
}
