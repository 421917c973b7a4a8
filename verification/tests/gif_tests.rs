use mudibot::commands::fun::gif::{percent_encode, resume_gif};
use mudibot::config::Config;
use mudibot::dispatcher::{dispatch, DispatchOutcome};
use mudibot::localization::L10NBundle;
use mudibot::transport::{Context, Http, Message, MessageData};

fn giphy_ctx() -> Context {
    let mut ctx = Context::_new(Http::_new());
    ctx.bundle = Some(L10NBundle::new("en-US").unwrap());
    let mut config = Config::default();
    config.credentials.giphy_api_key = Some("1234".to_string());
    ctx.config = Some(config);
    ctx
}

fn sent_text(ctx: &Context, i: usize) -> (u64, String) {
    match &ctx.http.sent[i] {
        (ch, MessageData::StrMsg(s)) => (*ch, s.clone()),
        _ => panic!("expected a plain text message"),
    }
}

#[test]
fn gif_trending_url_and_reply() {
    let mut ctx = giphy_ctx();
    let msg = Message::_from_str("$gif");

    let report = dispatch(&mut ctx, &msg);
    let req = match report.outcome {
        DispatchOutcome::NeedsHttp(req) => req,
        _ => panic!("expected an HTTP continuation"),
    };
    assert_eq!(
        req.url,
        "https://api.giphy.com/v1/gifs/trending?&limit=1&rating=g&api_key=1234"
    );

    resume_gif(&mut ctx, &req, "{\"data\":[{\"url\":\"the.url\"}]}").unwrap();
    assert_eq!(sent_text(&ctx, 0), (0, "the.url".to_string()));
}

#[test]
fn gifrandom_with_tag_url_and_reply() {
    let mut ctx = giphy_ctx();
    let msg = Message::_from_str("$gifrandom test");

    let report = dispatch(&mut ctx, &msg);
    let req = match report.outcome {
        DispatchOutcome::NeedsHttp(req) => req,
        _ => panic!("expected an HTTP continuation"),
    };
    assert_eq!(
        req.url,
        "https://api.giphy.com/v1/gifs/random?tag=test&limit=1&rating=g&api_key=1234"
    );

    resume_gif(&mut ctx, &req, "{\"data\":{\"url\":\"the.url\"}}").unwrap();
    assert_eq!(sent_text(&ctx, 0), (0, "the.url".to_string()));
}

#[test]
fn gif_with_tag_uses_search() {
    let mut ctx = giphy_ctx();
    let msg = Message::_from_str("$gif cute cats");

    let report = dispatch(&mut ctx, &msg);
    let req = match report.outcome {
        DispatchOutcome::NeedsHttp(req) => req,
        _ => panic!("expected an HTTP continuation"),
    };
    assert_eq!(
        req.url,
        "https://api.giphy.com/v1/gifs/search?q=cute%20cats&limit=1&rating=g&api_key=1234"
    );
}

#[test]
fn gif_empty_data_means_no_gif() {
    let mut ctx = giphy_ctx();
    let msg = Message::_from_str("$gif");

    let report = dispatch(&mut ctx, &msg);
    let req = match report.outcome {
        DispatchOutcome::NeedsHttp(req) => req,
        _ => panic!("expected an HTTP continuation"),
    };

    resume_gif(&mut ctx, &req, "{\"data\":[]}").unwrap();
    assert_eq!(
        sent_text(&ctx, 0),
        (0, "Couldn't find any matching GIF.".to_string())
    );
}

#[test]
fn gif_null_url_means_no_gif() {
    let mut ctx = giphy_ctx();
    let msg = Message::_from_str("$gif");
    let report = dispatch(&mut ctx, &msg);
    let req = match report.outcome {
        DispatchOutcome::NeedsHttp(req) => req,
        _ => panic!("expected an HTTP continuation"),
    };

    resume_gif(&mut ctx, &req, "{\"data\":[{\"url\":null}]}").unwrap();
    assert_eq!(
        sent_text(&ctx, 0),
        (0, "Couldn't find any matching GIF.".to_string())
    );
}

#[test]
fn gif_non_string_url_is_reported() {
    let mut ctx = giphy_ctx();
    let msg = Message::_from_str("$gif");
    let report = dispatch(&mut ctx, &msg);
    let req = match report.outcome {
        DispatchOutcome::NeedsHttp(req) => req,
        _ => panic!("expected an HTTP continuation"),
    };

    resume_gif(&mut ctx, &req, "{\"data\":[{\"url\":7}]}").unwrap();
    assert_eq!(
        sent_text(&ctx, 0),
        (0, "Couldn't understand the response from Giphy.".to_string())
    );
}

#[test]
fn gif_unreadable_body_is_an_error() {
    let mut ctx = giphy_ctx();
    let msg = Message::_from_str("$gif");
    let report = dispatch(&mut ctx, &msg);
    let req = match report.outcome {
        DispatchOutcome::NeedsHttp(req) => req,
        _ => panic!("expected an HTTP continuation"),
    };

    assert!(resume_gif(&mut ctx, &req, "not json at all").is_err());
    assert!(ctx.http.sent.is_empty());
}

#[test]
fn percent_encoding_keeps_unreserved_and_escapes_the_rest() {
    assert_eq!(percent_encode("AZaz09-_.~"), "AZaz09-_.~");
    assert_eq!(percent_encode("a b&c"), "a%20b%26c");
    assert_eq!(percent_encode("caf\u{e9}"), "caf%C3%A9");
}

#[test]
fn gif_url_with_escapes_in_response() {
    let mut ctx = giphy_ctx();
    let msg = Message::_from_str("$gif");
    let report = dispatch(&mut ctx, &msg);
    let req = match report.outcome {
        DispatchOutcome::NeedsHttp(req) => req,
        _ => panic!("expected an HTTP continuation"),
    };

    resume_gif(
        &mut ctx,
        &req,
        " {\n  \"data\": [ { \"url\": \"https:\\/\\/gif.example\\/a\" } ]\n} ",
    )
    .unwrap();
    assert_eq!(sent_text(&ctx, 0), (0, "https://gif.example/a".to_string()));
}

#[test]
fn gif_url_with_unicode_escapes_in_response() {
    let mut ctx = giphy_ctx();
    let msg = Message::_from_str("$gif");
    let report = dispatch(&mut ctx, &msg);
    let req = match report.outcome {
        DispatchOutcome::NeedsHttp(req) => req,
        _ => panic!("expected an HTTP continuation"),
    };

    resume_gif(
        &mut ctx,
        &req,
        "{\"data\":[{\"url\":\"g\\u0069f.example\\ud83d\\ude00\"}]}",
    )
    .unwrap();
    assert_eq!(
        sent_text(&ctx, 0),
        (0, "gif.example\u{1F600}".to_string())
    );
}
