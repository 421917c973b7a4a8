use mudibot::commands::HandlerError;
use mudibot::config::Config;
use mudibot::dispatcher::{dispatch, DispatchOutcome};
use mudibot::localization::L10NBundle;
use mudibot::rng::RandomSource;
use mudibot::transport::{Context, Http, Message, MessageData, MessageId, ShardManager};

fn base_ctx() -> Context {
    let mut ctx = Context::_new(Http::_new());
    ctx.bundle = Some(L10NBundle::new("en-US").unwrap());
    ctx.config = Some(Config::default());
    ctx
}

fn sent_text(ctx: &Context, i: usize) -> (u64, String) {
    match &ctx.http.sent[i] {
        (ch, MessageData::StrMsg(s)) => (*ch, s.clone()),
        _ => panic!("expected a plain text message"),
    }
}

#[test]
fn no_prefix_is_ignored_silently() {
    let mut ctx = base_ctx();
    let msg = Message::_from_str("hello there, this is not a command");

    let report = dispatch(&mut ctx, &msg);

    assert!(matches!(report.outcome, DispatchOutcome::Ignored));
    assert!(report.log_before.is_none());
    assert!(report.log_after.is_none());
    assert!(ctx.http.sent.is_empty());
}

#[test]
fn unknown_command_is_ignored_silently() {
    let mut ctx = base_ctx();
    let msg = Message::_from_str("$frobnicate now");

    let report = dispatch(&mut ctx, &msg);

    assert!(matches!(report.outcome, DispatchOutcome::Ignored));
    assert!(ctx.http.sent.is_empty());
}

#[test]
fn failed_check_sends_nothing() {
    let mut ctx = base_ctx();
    let msg = Message::_from_str("$gif cats");

    let report = dispatch(&mut ctx, &msg);

    assert!(matches!(report.outcome, DispatchOutcome::RejectedCheck));
    assert!(report.log_before.is_none());
    assert!(ctx.http.sent.is_empty());
}

#[test]
fn owners_only_command_from_stranger_is_rejected() {
    let mut ctx = base_ctx();
    let msg = Message::_from_str("$kill");

    let report = dispatch(&mut ctx, &msg);

    assert!(matches!(report.outcome, DispatchOutcome::RejectedOwner));
    assert!(ctx.http.sent.is_empty());
}

#[test]
fn owners_only_command_from_owner_runs() {
    let mut ctx = base_ctx();
    ctx.config.as_mut().unwrap().global.superusers = Some(vec![0]);
    ctx.shard_manager = Some(ShardManager::_new(Vec::new()));
    let msg = Message::_from_str("$kill");

    let report = dispatch(&mut ctx, &msg);

    assert!(matches!(report.outcome, DispatchOutcome::Completed));
    assert_eq!(sent_text(&ctx, 0), (0, "Shutting down...".to_string()));
    assert!(ctx.shard_manager.as_ref().unwrap().shutdown);
}

#[test]
fn min_args_gate_rejects_bare_say() {
    let mut ctx = base_ctx();
    let msg = Message::_from_str("$say");

    let report = dispatch(&mut ctx, &msg);

    assert!(matches!(report.outcome, DispatchOutcome::RejectedMinArgs));
    assert!(ctx.http.sent.is_empty());
}

#[test]
fn uppercase_command_name_is_recognized() {
    let mut ctx = base_ctx();
    ctx.random = RandomSource::Scripted {
        values: vec![1],
        next: 0,
    };
    let msg = Message::_from_str("$FLIPCOIN");

    let report = dispatch(&mut ctx, &msg);

    assert!(matches!(report.outcome, DispatchOutcome::Completed));
    assert_eq!(
        sent_text(&ctx, 0),
        (0, "*The coin lands on \u{2068}tails\u{2069}.*".to_string())
    );
}

#[test]
fn before_log_line_has_the_fixed_grammar() {
    let mut ctx = base_ctx();
    ctx.random = RandomSource::Scripted {
        values: vec![0],
        next: 0,
    };
    let mut msg = Message::_new(MessageId::new(0), 7, "$flipcoin".to_string(), 3);
    msg.author_name = "Tester".to_string();
    msg.author_id = 42;

    let report = dispatch(&mut ctx, &msg);

    assert!(matches!(report.outcome, DispatchOutcome::Completed));
    let (target, body) = report.log_before.unwrap();
    assert_eq!(target, "cmd-guild");
    assert_eq!(body, "[3-7] Tester<42> -> $flipcoin");
}

#[test]
fn handler_failure_becomes_a_warning_line() {
    let mut ctx = base_ctx();
    ctx.bundle = None;
    let msg = Message::_from_str("$ping");

    let report = dispatch(&mut ctx, &msg);

    assert!(matches!(
        report.outcome,
        DispatchOutcome::Failed(HandlerError::L10N(_))
    ));
    let after = report.log_after.unwrap();
    assert_eq!(after, "Error in ping: the localization bundle is not installed");
}

#[test]
fn warning_line_carries_the_error_payload() {
    let mut ctx = base_ctx();
    ctx.bundle.as_mut().unwrap().messages.clear();
    let msg = Message::_from_str("$ping");

    let report = dispatch(&mut ctx, &msg);

    assert!(matches!(report.outcome, DispatchOutcome::Failed(_)));
    assert_eq!(
        report.log_after.unwrap(),
        "Error in ping: the message \"ping-msg\" was not found"
    );
}
