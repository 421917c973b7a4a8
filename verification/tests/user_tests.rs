use mudibot::commands::user::avatar;
use mudibot::localization::L10NBundle;
use mudibot::transport::{Context, Http, Message, MessageData, MessageId, User};

fn base_ctx() -> Context {
    let mut ctx = Context::_new(Http::_new());
    ctx.bundle = Some(L10NBundle::new("en-US").unwrap());
    ctx
}

fn sent_text(ctx: &Context, i: usize) -> (u64, String) {
    match &ctx.http.sent[i] {
        (ch, MessageData::StrMsg(s)) => (*ch, s.clone()),
        _ => panic!("expected a plain text message"),
    }
}

#[test]
fn avatar_missing_user() {
    let mut ctx = base_ctx();
    let msg = Message::_new(MessageId::new(0), 0, "$avatar bad_user".to_string(), 0);

    avatar(&mut ctx, &msg).unwrap();

    assert_eq!(sent_text(&ctx, 0), (0, "Missing argument: user.".to_string()));
}

#[test]
fn avatar_wrong_user() {
    let mut ctx = base_ctx();
    ctx.user_directory = vec![("bad_user_but_better".to_string(), 2)];
    let msg = Message::_new(
        MessageId::new(0),
        0,
        "$avatar bad_user_but_better".to_string(),
        0,
    );

    avatar(&mut ctx, &msg).unwrap();

    assert_eq!(sent_text(&ctx, 0), (0, "Wrong user id.".to_string()));
}

#[test]
fn avatar_no_custom_avatar() {
    let mut ctx = base_ctx();
    ctx.user_directory = vec![("good_user_but_default_avatar".to_string(), 2)];
    ctx.http.user = Some(User { avatar: None });
    let msg = Message::_new(
        MessageId::new(0),
        0,
        "$avatar good_user_but_default_avatar".to_string(),
        0,
    );

    avatar(&mut ctx, &msg).unwrap();

    assert_eq!(
        sent_text(&ctx, 0),
        (0, "This user doesn't have a custom avatar.".to_string())
    );
}

#[test]
fn avatar_custom_avatar() {
    let mut ctx = base_ctx();
    ctx.user_directory = vec![("good_user_but_default_avatar".to_string(), 2)];
    ctx.http.user = Some(User {
        avatar: Some("some_id".to_string()),
    });
    let msg = Message::_new(
        MessageId::new(0),
        0,
        "$avatar good_user_but_default_avatar".to_string(),
        0,
    );

    avatar(&mut ctx, &msg).unwrap();

    assert_eq!(
        sent_text(&ctx, 0),
        (
            0,
            "https://cdn.discordapp.com/avatars/2/some_id.png?size=2048".to_string()
        )
    );
}
