use mudibot::logger::{format_author_and_msg, indent_args, parse_cmd_guild, parse_cmd_not_guild};

#[test]
fn guild_line_splits() {
    let p = parse_cmd_guild("[3-7] Tester<42> -> $ping now").unwrap();
    assert_eq!(p.guild_id, "3");
    assert_eq!(p.channel_id, "7");
    assert_eq!(p.rest, "Tester<42> -> $ping now");
}

#[test]
fn guild_line_without_dash_fails() {
    assert!(parse_cmd_guild("[37] Tester<42> -> $ping").is_err());
    assert!(parse_cmd_guild("no brackets at all").is_err());
}

#[test]
fn plain_line_splits() {
    let p = parse_cmd_not_guild("[7] Tester<42> -> $ping").unwrap();
    assert_eq!(p.channel_id, "7");
    assert_eq!(p.rest, "Tester<42> -> $ping");
}

#[test]
fn plain_line_with_dash_fails() {
    assert!(parse_cmd_not_guild("[3-7] Tester<42> -> $ping").is_err());
}

#[test]
fn author_and_msg_splits() {
    let p = format_author_and_msg("Tester<42> -> $ping with args").unwrap();
    assert_eq!(p.author, "Tester");
    assert_eq!(p.user_id, "42");
    assert_eq!(p.cmd, "$ping");
    assert_eq!(p.args, " with args");
}

#[test]
fn author_with_angle_brackets_takes_the_last_mark() {
    let p = format_author_and_msg("We<ird<9> -> $say hi").unwrap();
    assert_eq!(p.author, "We<ird");
    assert_eq!(p.user_id, "9");
    assert_eq!(p.cmd, "$say");
    assert_eq!(p.args, " hi");
}

#[test]
fn author_and_msg_without_mark_fails() {
    assert!(format_author_and_msg("no mark here").is_err());
    assert!(format_author_and_msg("Tester<notdigits> -> $ping").is_err());
}

#[test]
fn continuation_lines_are_indented() {
    assert_eq!(indent_args("one\ntwo\nthree"), "one\n    two\n    three");
    assert_eq!(indent_args("plain"), "plain");
    assert_eq!(indent_args(""), "");
}
