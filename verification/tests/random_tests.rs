use mudibot::commands::fun::random::{flip_coin, roll};
use mudibot::localization::L10NBundle;
use mudibot::rng::RandomSource;
use mudibot::transport::{Context, Http, Message, MessageData, MessageId};

fn base_ctx() -> Context {
    let mut ctx = Context::_new(Http::_new());
    ctx.bundle = Some(L10NBundle::new("en-US").unwrap());
    ctx
}

fn sent_text(ctx: &Context, i: usize) -> (u64, String) {
    match &ctx.http.sent[i] {
        (ch, MessageData::StrMsg(s)) => (*ch, s.clone()),
        _ => panic!("expected a plain text message"),
    }
}

fn test_flip_coin(random_bool: bool, side: &str) {
    let mut ctx = base_ctx();
    ctx.random = RandomSource::Scripted {
        values: vec![if random_bool { 1 } else { 0 }],
        next: 0,
    };
    let msg = Message::_from_str("$flipcoin");

    flip_coin(&mut ctx, &msg).unwrap();

    assert_eq!(
        sent_text(&ctx, 0),
        (0, format!("*The coin lands on \u{2068}{}\u{2069}.*", side))
    );
}

#[test]
fn flip_a_coin_tails() {
    test_flip_coin(true, "tails");
}

#[test]
fn flip_a_coin_heads() {
    test_flip_coin(false, "heads");
}

const ROLL_INVALID_USE: &str = "This roll could not be parsed. Make sure to include numbers smaller than 256 and follow this syntax: `[num of dice]d<num of sides>[modifier (+ or - a number)]`";

fn test_roll(content: &str, response_msg: &str, random_values: Option<&[u64]>) {
    let mut ctx = base_ctx();
    if let Some(values) = random_values {
        ctx.random = RandomSource::Scripted {
            values: values.to_vec(),
            next: 0,
        };
    }
    let msg = Message::_from_str(content);

    roll(&mut ctx, &msg).unwrap();

    assert_eq!(sent_text(&ctx, 0), (0, response_msg.to_string()));
}

#[test]
fn roll_no_argument() {
    test_roll("$roll", "(3) = 3", Some(&[3]));
}

#[test]
fn roll_implicit_one() {
    test_roll("$roll d6", "(6) = 6", Some(&[6]));
}

#[test]
fn roll_explicit_one() {
    test_roll("$roll 1d20", "(16) = 16", Some(&[16]));
}

#[test]
fn roll_multiple_dice() {
    test_roll("$roll 2d7", "(2 + 7) = 9", Some(&[2, 7]));
}

#[test]
fn roll_modifier() {
    test_roll(
        "$roll 5d3+5",
        "(1 + 2 + 3 + 2 + 1) + 5 = 14",
        Some(&[1, 2, 3, 2, 1]),
    );
}

#[test]
fn roll_negative_response() {
    test_roll("$roll 2d3-10", "(3 + 2) + -10 = -5", Some(&[3, 2]));
}

#[test]
fn roll_max_dice_display_limit() {
    test_roll("$roll 30d1+2", "(1 + 1 + 1 + 1 + 1 + 1 + 1 + 1 + 1 + 1 + 1 + 1 + 1 + 1 + 1 + 1 + 1 + 1 + 1 + 1 + 1 + 1 + 1 + 1 + 1 + 1 + 1 + 1 + 1 + 1) + 2 = 32", Some(&[1]));
}

#[test]
fn roll_max_dice_display_limit_plus_one() {
    test_roll("$roll 31d1+2", "(1 + 1 + 1 + 1 + 1 + 1 + 1 + 1 + 1 + 1 + 1 + 1 + 1 + 1 + 1 + 1 + 1 + 1 + 1 + 1 + 1 + 1 + 1 + 1 + 1 + 1 + 1 + 1 + 1 + 1...) + 2 = 33", Some(&[1]));
}

#[test]
fn roll_missing_d() {
    test_roll("$roll 2f3", ROLL_INVALID_USE, None);
}

#[test]
fn roll_invalid_dice_num() {
    test_roll("$roll 2%d3", ROLL_INVALID_USE, None);
}

#[test]
fn roll_invalid_sides_num() {
    test_roll("$roll 2d30000000000000", ROLL_INVALID_USE, None);
}

#[test]
fn roll_invalid_modifier() {
    test_roll("$roll 2d3d", ROLL_INVALID_USE, None);
}

#[test]
fn roll_out_of_bound_dice_num() {
    test_roll("$roll 300d3", ROLL_INVALID_USE, None);
}

#[test]
fn roll_out_of_bound_sides_num() {
    test_roll("$roll 2d300", ROLL_INVALID_USE, None);
}

#[test]
fn roll_out_of_bound_modifier() {
    test_roll("$roll 2d3-300", ROLL_INVALID_USE, None);
}

#[test]
fn roll_no_die() {
    test_roll(
        "$roll 0d0+5",
        "Alright then, no virtual die for you. :game_die:",
        None,
    );
}

#[test]
fn roll_no_sides() {
    test_roll(
        "$roll 2d0",
        "*Throws a die but it keeps rolling forever because it doesn't have a face to land on.*",
        None,
    );
}

#[test]
fn roll_plus_prefixed_dice() {
    test_roll("$roll +5d3+5", "(1 + 2 + 3 + 2 + 1) + 5 = 14", Some(&[1, 2, 3, 2, 1]));
}
