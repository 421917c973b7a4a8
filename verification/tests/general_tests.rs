use mudibot::commands::general::{info, ping, say};
use mudibot::localization::L10NBundle;
use mudibot::config::Config;
use mudibot::transport::{
    Channel,
    Context,
    CreateEmbed,
    CreateMessage,
    GuildChannel,
    Http,
    Message,
    MessageData,
    MessageId,
    PrivateChannel,
    ShardManager,
    ShardRunnerInfo,
};

fn base_ctx() -> Context {
    let mut ctx = Context::_new(Http::_new());
    ctx.bundle = Some(L10NBundle::new("en-US").unwrap());
    ctx
}

fn sent_text(ctx: &Context, i: usize) -> (u64, String) {
    match &ctx.http.sent[i] {
        (ch, MessageData::StrMsg(s)) => (*ch, s.clone()),
        _ => panic!("expected a plain text message"),
    }
}

fn run_ping_without_heartbeat() {
    let mut ctx = base_ctx();
    ctx.shard_manager = Some(ShardManager::_new(Vec::new()));
    ctx.now_ms = 946702800000;
    let msg = Message::_new(MessageId::new(946702799900), 0, "$ping".to_string(), 0);

    ping(&mut ctx, &msg).unwrap();

    assert_eq!(
        sent_text(&ctx, 0),
        (0, "Pong! *Ping received after \u{2068}100\u{2069} ms.*".to_string())
    );
}

#[test]
fn general_send_ping_without_heartbeat() {
    run_ping_without_heartbeat();
}

#[test]
fn meta_send_ping_without_heartbeat() {
    run_ping_without_heartbeat();
}

fn run_ping_with_heartbeat() {
    let mut ctx = base_ctx();
    ctx.shard_manager = Some(ShardManager::_new(vec![(
        0,
        ShardRunnerInfo { latency: Some(64) },
    )]));
    ctx.now_ms = 946702801000;
    let msg = Message::_new(MessageId::new(946702799900), 0, "$ping".to_string(), 0);

    ping(&mut ctx, &msg).unwrap();

    assert_eq!(
        sent_text(&ctx, 0),
        (
            0,
            "Pong! *Ping received after \u{2068}1100\u{2069} ms.* *Current shard heartbeat ping of \u{2068}64\u{2069} ms.*"
                .to_string()
        )
    );
}

#[test]
fn general_send_ping_with_heartbeat() {
    run_ping_with_heartbeat();
}

#[test]
fn meta_send_ping_with_heartbeat() {
    run_ping_with_heartbeat();
}

#[test]
fn general_send_info() {
    let mut ctx = base_ctx();
    ctx.config = Some(Config::default());
    ctx.shard_manager = Some(ShardManager::_new(Vec::new()));
    ctx.process_start_secs = Some(100);
    ctx.now_ms = 100_000_000;
    ctx.version = "1.0.0".to_string();
    let msg = Message::_new(MessageId::new(0), 0, "$info".to_string(), 0);

    info(&mut ctx, &msg).unwrap();

    let mut embed = CreateEmbed::new();
    embed.title("__**~Info~**__".to_string());
    embed.colour(0x0080c0);
    embed.field(
        "**General**".to_string(),
        "**Name:** MuDiBot\n\
        **Description:** A multipurpose Discord bot (MuDiBot) made using serenity\n\
        **Author:** Thomas Donovan (tdonovan4)\n\
        **Version:** \u{2068}1.0.0\u{2069}\n\
        **Uptime:** \u{2068}\u{2068}1\u{2069}d:\u{2068}3\u{2069}h:\u{2068}45\u{2069}m:\u{2068}0\u{2069}s\u{2069}"
            .to_string(),
        false,
    );
    embed.field(
        "**Config**".to_string(),
        "**Language:** \u{2068}en-US\u{2069}".to_string(),
        false,
    );
    embed.footer_text("Client ID: \u{2068}0\u{2069}".to_string());
    let mut expected = CreateMessage::new();
    expected.embed(embed);

    assert_eq!(ctx.http.sent.len(), 1);
    assert_eq!(ctx.http.sent[0], (0, MessageData::CreateMessage(expected)));
}

#[test]
fn say_something_current() {
    let mut ctx = base_ctx();
    let msg = Message::_new(MessageId::new(0), 0, "$say This is a test".to_string(), 0);

    say(&mut ctx, &msg).unwrap();

    assert_eq!(sent_text(&ctx, 0), (0, "This is a test".to_string()));
}

#[test]
fn say_nothing_channel() {
    let mut ctx = base_ctx();
    ctx.channel_directory = vec![("a_good_channel".to_string(), 1)];
    ctx.http.channel = Some(Channel::Guild(GuildChannel { guild_id: 0 }));
    let msg = Message::_new(MessageId::new(0), 0, "$say a_good_channel".to_string(), 0);

    say(&mut ctx, &msg).unwrap();

    assert_eq!(sent_text(&ctx, 0), (0, "Missing argument: message.".to_string()));
}

#[test]
fn say_something_channel() {
    let mut ctx = base_ctx();
    ctx.channel_directory = vec![("a_good_channel".to_string(), 1)];
    ctx.http.channel = Some(Channel::Guild(GuildChannel { guild_id: 0 }));
    let msg = Message::_new(MessageId::new(0), 0, "$say a_good_channel test".to_string(), 0);

    say(&mut ctx, &msg).unwrap();

    assert_eq!(sent_text(&ctx, 0), (1, "test".to_string()));
}

#[test]
fn say_something_not_guild_channel() {
    let mut ctx = base_ctx();
    ctx.channel_directory = vec![("a_good_channel".to_string(), 1)];
    ctx.http.channel = Some(Channel::Private(PrivateChannel {}));
    let msg = Message::_new(MessageId::new(0), 0, "$say a_good_channel test".to_string(), 0);

    say(&mut ctx, &msg).unwrap();

    assert_eq!(sent_text(&ctx, 0), (0, "This channel is a not in a server!".to_string()));
}

#[test]
fn say_something_external_channel() {
    let mut ctx = base_ctx();
    ctx.channel_directory = vec![("a_good_channel".to_string(), 1)];
    ctx.http.channel = Some(Channel::Guild(GuildChannel { guild_id: 1 }));
    let msg = Message::_new(MessageId::new(0), 0, "$say a_good_channel test".to_string(), 0);

    say(&mut ctx, &msg).unwrap();

    assert_eq!(
        sent_text(&ctx, 0),
        (
            0,
            "Sending a message in an external guild channel is not yet supported. :confused:"
                .to_string()
        )
    );
}
