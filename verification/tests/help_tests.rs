use mudibot::commands::general::help;
use mudibot::config::Config;
use mudibot::dispatcher::{dispatch, DispatchOutcome};
use mudibot::localization::L10NBundle;
use mudibot::transport::{Context, CreateEmbed, CreateMessage, Http, Message, MessageData};

fn base_ctx() -> Context {
    let mut ctx = Context::_new(Http::_new());
    ctx.bundle = Some(L10NBundle::new("en-US").unwrap());
    ctx.config = Some(Config::default());
    ctx
}

#[test]
fn help_lists_the_command_groups() {
    let mut ctx = base_ctx();
    let msg = Message::_from_str("$help");

    let report = dispatch(&mut ctx, &msg);
    assert!(matches!(report.outcome, DispatchOutcome::Completed));

    let mut embed = CreateEmbed::new();
    embed.title("Commands".to_string());
    embed.colour(0x0080c0);
    embed.field("General".to_string(), "ping, info, say".to_string(), false);
    embed.field("User".to_string(), "avatar".to_string(), false);
    embed.field("Owner".to_string(), "setactivity, kill, restart".to_string(), false);
    embed.field("Fun".to_string(), "gif, gifrandom, flipcoin, roll".to_string(), false);
    embed.footer_text("Type the name of a command to get more info about it".to_string());
    let mut expected = CreateMessage::new();
    expected.embed(embed);

    assert_eq!(ctx.http.sent.len(), 1);
    assert_eq!(ctx.http.sent[0], (0, MessageData::CreateMessage(expected)));
}

#[test]
fn help_describes_a_command() {
    let mut ctx = base_ctx();
    let msg = Message::_from_str("$help roll");

    help(&mut ctx, &msg).unwrap();

    assert_eq!(
        ctx.http.sent[0],
        (
            0,
            MessageData::StrMsg(
                "Roll virtual dice\nUsage: `[num of dice]d<num of sides>[modifier (+ or - a number)]`"
                    .to_string()
            )
        )
    );
}

#[test]
fn help_reports_an_unknown_command() {
    let mut ctx = base_ctx();
    let msg = Message::_from_str("$help frobnicate");

    help(&mut ctx, &msg).unwrap();

    assert_eq!(
        ctx.http.sent[0],
        (0, MessageData::StrMsg("No command with that name was found.".to_string()))
    );
}
