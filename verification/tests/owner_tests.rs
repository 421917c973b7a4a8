use mudibot::commands::owner::{kill, restart_shards, set_activity};
use mudibot::config::Config;
use mudibot::localization::L10NBundle;
use mudibot::transport::{
    Context,
    Http,
    Message,
    MessageData,
    MessageId,
    ShardManager,
    ShardRunnerInfo,
};

fn base_ctx() -> Context {
    let mut ctx = Context::_new(Http::_new());
    ctx.bundle = Some(L10NBundle::new("en-US").unwrap());
    ctx
}

fn sent_text(ctx: &Context, i: usize) -> (u64, String) {
    match &ctx.http.sent[i] {
        (ch, MessageData::StrMsg(s)) => (*ch, s.clone()),
        _ => panic!("expected a plain text message"),
    }
}

fn run_set_activity(content: &str, response: &str, activity: Option<&str>) {
    let mut ctx = base_ctx();
    ctx.config = Some(Config::default());
    let msg = Message::_new(MessageId::new(0), 0, content.to_string(), 0);

    set_activity(&mut ctx, &msg).unwrap();

    assert_eq!(
        ctx.config.as_ref().unwrap().get_activity(),
        activity.map(|s| s.to_string()).as_ref()
    );
    assert_eq!(sent_text(&ctx, 0), (0, response.to_string()));
    assert_eq!(ctx.fs_writes.len(), 1);
    assert_eq!(
        ctx.presence,
        vec![activity.map(|s| s.to_string())]
    );
}

#[test]
fn owner_set_activity_to_none() {
    run_set_activity("$setactivity", "Activity successfully removed!", None);
}

#[test]
fn owner_set_activity_to_some() {
    run_set_activity(
        "$setactivity Hello, this is a test!",
        "Activity successfully modified!",
        Some("Hello, this is a test!"),
    );
}

#[test]
fn meta_set_activity_to_none() {
    run_set_activity("$setactivity", "Activity successfully removed!", None);
}

#[test]
fn meta_set_activity_to_some() {
    run_set_activity(
        "$setactivity Hello, this is a test!",
        "Activity successfully modified!",
        Some("Hello, this is a test!"),
    );
}

#[test]
fn should_shutdown_shards() {
    let mut ctx = base_ctx();
    ctx.shard_manager = Some(ShardManager::_new(Vec::new()));
    let msg = Message::_new(MessageId::new(0), 0, "$kill".to_string(), 0);

    kill(&mut ctx, &msg).unwrap();

    assert_eq!(sent_text(&ctx, 0), (0, "Shutting down...".to_string()));
    assert!(ctx.shard_manager.as_ref().unwrap().shutdown);
}

#[test]
fn should_restart_shards() {
    let mut ctx = base_ctx();
    ctx.shard_manager = Some(ShardManager::_new(vec![
        (0, ShardRunnerInfo { latency: None }),
        (1, ShardRunnerInfo { latency: None }),
        (3, ShardRunnerInfo { latency: None }),
        (4, ShardRunnerInfo { latency: None }),
    ]));
    let msg = Message::_new(MessageId::new(0), 0, "$restart".to_string(), 0);

    restart_shards(&mut ctx, &msg).unwrap();

    assert_eq!(sent_text(&ctx, 0), (0, "Restarting shards...".to_string()));
    assert_eq!(ctx.shard_manager.as_ref().unwrap().restarted, vec![0, 1, 3, 4]);
}
