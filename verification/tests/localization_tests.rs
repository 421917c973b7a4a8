use mudibot::localization::{L10NBundle, L10NError};
use mudibot::transport::{Client, Context, Http};

fn args(pairs: &[(&str, &str)]) -> Vec<(String, String)> {
    let mut v = Vec::new();
    for (k, val) in pairs {
        v.push((k.to_string(), val.to_string()));
    }
    v
}

#[test]
fn create_bundle_and_get_msg() {
    let bundle = L10NBundle::new("en-US").unwrap();
    assert_eq!(bundle.localize_msg("info-embed", None).unwrap(), "__**~Info~**__");
}

#[test]
fn create_bundle_and_get_msg_but_in_french() {
    let bundle = L10NBundle::new("fr").unwrap();
    assert_eq!(bundle.localize_msg("info-embed", None).unwrap(), "__**~Infos~**__");
}

#[test]
fn get_message_and_its_value() {
    let bundle = L10NBundle::new("en-US").unwrap();
    let msg = bundle.get_message("info-embed").unwrap();
    assert_eq!(bundle.get_msg_value(msg, None).unwrap(), "__**~Info~**__");
}

#[test]
fn get_message_and_an_attribute() {
    let bundle = L10NBundle::new("en-US").unwrap();
    let msg = bundle.get_message("info-embed").unwrap();
    assert_eq!(
        bundle.get_msg_attribute(msg, "general-title", None).unwrap(),
        "**General**"
    );
}

#[test]
fn message_with_placeable() {
    let bundle = L10NBundle::new("en-US").unwrap();
    let a = args(&[("ping", "15")]);
    assert_eq!(
        bundle.localize_msg("ping-msg", Some(&a)).unwrap(),
        "Pong! *Ping received after \u{2068}15\u{2069} ms.*"
    );
}

#[test]
fn context_localize_msg() {
    let mut ctx = Context::_new(Http::_new());
    ctx.bundle = Some(L10NBundle::new("en-US").unwrap());
    assert_eq!(ctx.localize_msg("info-embed", None).unwrap(), "__**~Info~**__");
}

#[test]
fn client_localize_msg() {
    let mut client = Client::_new();
    client.bundle = Some(L10NBundle::new("en-US").unwrap());
    assert_eq!(client.localize_msg("info-embed", None).unwrap(), "__**~Info~**__");
}

#[test]
fn wrong_message_id() {
    let bundle = L10NBundle::new("en-US").unwrap();
    assert!(bundle.localize_msg("awsxc", None).is_err());
}

#[test]
fn wrong_message_attribute() {
    let bundle = L10NBundle::new("en-US").unwrap();
    let msg = bundle.get_message("info-embed").unwrap();
    assert!(bundle.get_msg_attribute(msg, "cxswa", None).is_err());
}

#[test]
fn locale_not_localized() {
    assert!(L10NBundle::new("sr-Latn-ME").is_err());
    assert!(matches!(
        L10NBundle::new("sr-Latn-ME"),
        Err(L10NError::NotLocalizedLocale(_))
    ));
}

#[test]
fn malformed_locale_rejected() {
    assert!(matches!(
        L10NBundle::new("en--US"),
        Err(L10NError::LanguageIdentifierError(_))
    ));
    assert!(matches!(
        L10NBundle::new(""),
        Err(L10NError::LanguageIdentifierError(_))
    ));
}

#[test]
fn missing_argument_is_best_effort() {
    let bundle = L10NBundle::new("en-US").unwrap();
    assert_eq!(
        bundle.localize_msg("ping-msg", None).unwrap(),
        "Pong! *Ping received after \u{2068}{$ping}\u{2069} ms.*"
    );
}

#[test]
fn french_catalog_covers_the_handlers() {
    let bundle = L10NBundle::new("fr").unwrap();
    for id in [
        "ping-msg",
        "ping-msg-heartbeat",
        "info-uptime",
        "info-embed",
        "flipcoin",
        "set-activity-some",
        "set-activity-none",
        "shutting-down",
        "restarting-shards",
        "missing-message",
        "missing-user",
        "wrong-user-id",
        "no-custom-avatar",
        "not-guild-channel",
        "external-guild-channel",
        "roll-no-die",
        "roll-no-side",
        "roll-parsing-error",
        "no-gif",
        "giphy-response-parsing",
    ] {
        assert!(bundle.get_message(id).is_ok(), "missing message {}", id);
    }
}
