//! Message catalogs and the pattern formatter behind every user-visible reply.
//!
//! A message pattern is a sequence of literal text runs and named argument
//! slots. Formatting substitutes each argument, wrapping the substituted
//! value in the Unicode first-strong-isolate marks (U+2068 and U+2069); a
//! slot whose argument is absent renders best-effort as the slot source
//! between the same marks, and never fails.

use vstd::prelude::*;
use crate::text::{is_dec_digit, str_eq};

verus! {

#[derive(Debug)]
pub enum PatternPart {
    Text(String),
    Arg(String),
}

#[derive(Debug)]
pub struct Pattern {
    pub parts: Vec<PatternPart>,
}

#[derive(Debug)]
pub struct L10NMessage {
    pub name: String,
    pub value: Option<Pattern>,
    pub attributes: Vec<(String, Pattern)>,
}

#[derive(Debug, PartialEq)]
pub enum L10NError {
    MissingFromShareMap,
    MissingMsg(String),
    MissingValue(String),
    MissingAttribute(String, String),
    LanguageIdentifierError(String),
    NotLocalizedLocale(String),
}

/// First binding of `name` among the argument pairs, if any.
pub open spec fn lookup_arg(args: Seq<(Seq<char>, Seq<char>)>, name: Seq<char>) -> Option<
    Seq<char>,
>
    decreases args.len(),
{
    if args.len() == 0 {
        None
    } else if args[0].0 == name {
        Some(args[0].1)
    } else {
        lookup_arg(args.skip(1), name)
    }
}

/// The character sequences of a list of argument pairs.
pub open spec fn args_view(args: Seq<(String, String)>) -> Seq<(Seq<char>, Seq<char>)> {
    args.map_values(|p: (String, String)| (p.0@, p.1@))
}

/// What one pattern part contributes to the formatted output.
pub open spec fn spec_format_part(p: PatternPart, args: Seq<(Seq<char>, Seq<char>)>) -> Seq<
    char,
> {
    match p {
        PatternPart::Text(t) => t@,
        PatternPart::Arg(n) => match lookup_arg(args, n@) {
            Some(v) => seq!['\u{2068}'] + v + seq!['\u{2069}'],
            None => seq!['\u{2068}', '{', '$'] + n@ + seq!['}', '\u{2069}'],
        },
    }
}

/// The formatted output of a whole pattern.
pub open spec fn spec_format(parts: Seq<PatternPart>, args: Seq<(Seq<char>, Seq<char>)>) -> Seq<
    char,
>
    decreases parts.len(),
{
    if parts.len() == 0 {
        Seq::empty()
    } else {
        spec_format(parts.drop_last(), args) + spec_format_part(parts.last(), args)
    }
}

/// The argument pairs carried by an optional argument list.
pub open spec fn opt_args(args: Option<&Vec<(String, String)>>) -> Seq<(Seq<char>, Seq<char>)> {
    match args {
        Some(a) => args_view(a@),
        None => Seq::empty(),
    }
}

fn find_arg<'a>(args: &'a Vec<(String, String)>, name: &str) -> (r: Option<&'a String>)
    ensures
        match r {
            Some(v) => lookup_arg(args_view(args@), name@) == Some(v@),
            None => lookup_arg(args_view(args@), name@) is None,
        },
{
    let ghost v = args_view(args@);
    let mut i: usize = 0;
    proof {
        assert(v.skip(0) =~= v);
    }
    while i < args.len()
        invariant
            i <= args@.len(),
            v == args_view(args@),
            lookup_arg(v, name@) == lookup_arg(v.skip(i as int), name@),
        decreases args@.len() - i,
    {
        let pair = &args[i];
        proof {
            assert(v.skip(i as int)[0] == v[i as int]);
            assert(v[i as int] == (args@[i as int].0@, args@[i as int].1@));
            assert(v.skip(i as int).skip(1) =~= v.skip(i + 1));
        }
        if str_eq(pair.0.as_str(), name) {
            return Some(&pair.1);
        }
        i = i + 1;
    }
    None
}

fn push_str_chars(out: &mut Vec<char>, s: &str)
    ensures
        final(out)@ == old(out)@ + s@,
{
    let len = s.unicode_len();
    let mut i: usize = 0;
    while i < len
        invariant
            i <= len,
            len == s@.len(),
            out@ == old(out)@ + s@.subrange(0, i as int),
        decreases len - i,
    {
        out.push(s.get_char(i));
        assert(out@ =~= old(out)@ + s@.subrange(0, i + 1));
        i = i + 1;
    }
    assert(out@ =~= old(out)@ + s@);
}

/// Formats a pattern against an optional argument list; never fails.
pub fn format_pattern(p: &Pattern, args: Option<&Vec<(String, String)>>) -> (r: String)
    ensures
        r@ == spec_format(p.parts@, opt_args(args)),
{
    let ghost sargs = opt_args(args);
    let mut out: Vec<char> = Vec::new();
    let mut i: usize = 0;
    while i < p.parts.len()
        invariant
            i <= p.parts@.len(),
            sargs == opt_args(args),
            out@ == spec_format(p.parts@.subrange(0, i as int), sargs),
        decreases p.parts@.len() - i,
    {
        let ghost done = p.parts@.subrange(0, i as int);
        let ghost next = p.parts@.subrange(0, i + 1);
        proof {
            assert(next.drop_last() =~= done);
            assert(next.last() == p.parts@[i as int]);
        }
        match &p.parts[i] {
            PatternPart::Text(t) => {
                push_str_chars(&mut out, t.as_str());
            },
            PatternPart::Arg(n) => {
                out.push('\u{2068}');
                let looked = match args {
                    Some(a) => find_arg(a, n.as_str()),
                    None => None,
                };
                match looked {
                    Some(v) => {
                        push_str_chars(&mut out, v.as_str());
                    },
                    None => {
                        out.push('{');
                        out.push('$');
                        push_str_chars(&mut out, n.as_str());
                        out.push('}');
                    },
                }
                out.push('\u{2069}');
            },
        }
        assert(out@ =~= spec_format(next, sargs));
        i = i + 1;
    }
    assert(p.parts@.subrange(0, p.parts@.len() as int) =~= p.parts@);
    crate::text::string_from_chars(&out)
}

/// First message with the given id, if any.
pub open spec fn spec_lookup_msg(msgs: Seq<L10NMessage>, id: Seq<char>) -> Option<L10NMessage>
    decreases msgs.len(),
{
    if msgs.len() == 0 {
        None
    } else if msgs[0].name@ == id {
        Some(msgs[0])
    } else {
        spec_lookup_msg(msgs.skip(1), id)
    }
}

/// First attribute with the given name, if any.
pub open spec fn spec_lookup_attr(attrs: Seq<(String, Pattern)>, name: Seq<char>) -> Option<
    Pattern,
>
    decreases attrs.len(),
{
    if attrs.len() == 0 {
        None
    } else if attrs[0].0@ == name {
        Some(attrs[0].1)
    } else {
        spec_lookup_attr(attrs.skip(1), name)
    }
}

/// A plausible language identifier: at least two characters, beginning with
/// two letters, made of alphanumeric subtags separated by single dashes.
pub open spec fn langid_wf(s: Seq<char>) -> bool {
    &&& s.len() >= 2
    &&& is_alpha(s[0])
    &&& is_alpha(s[1])
    &&& forall|i: int| 0 <= i < s.len() ==> is_alnum(#[trigger] s[i]) || is_dash(s[i])
    &&& forall|i: int| 0 <= i < s.len() && is_dash(#[trigger] s[i]) ==> i + 1 < s.len()
        && !is_dash(s[i + 1])
}

pub open spec fn is_dash(c: char) -> bool {
    c as int == 45
}

pub open spec fn is_alpha(c: char) -> bool {
    (65 <= c as int && c as int <= 90) || (97 <= c as int && c as int <= 122)
}

pub open spec fn is_alnum(c: char) -> bool {
    is_alpha(c) || is_dec_digit(c)
}

fn check_langid(s: &str) -> (r: bool)
    ensures
        r == langid_wf(s@),
{
    let v = crate::text::chars_of(s);
    if v.len() < 2 {
        return false;
    }
    let ch0: char = v[0];
    let ch1: char = v[1];
    if !(('A' <= ch0 && ch0 <= 'Z') || ('a' <= ch0 && ch0 <= 'z')) {
        return false;
    }
    if !(('A' <= ch1 && ch1 <= 'Z') || ('a' <= ch1 && ch1 <= 'z')) {
        return false;
    }
    let mut i: usize = 0;
    while i < v.len()
        invariant
            i <= v@.len(),
            v@ == s@,
            forall|j: int| 0 <= j < i ==> is_alnum(#[trigger] s@[j]) || is_dash(s@[j]),
            forall|j: int|
                0 <= j < i && is_dash(#[trigger] s@[j]) ==> j + 1 < s@.len() && !is_dash(s@[j + 1]),
        decreases v@.len() - i,
    {
        let ch: char = v[i];
        let alnum = ('A' <= ch && ch <= 'Z') || ('a' <= ch && ch <= 'z') || ('0' <= ch && ch
            <= '9');
        if !alnum && ch != '-' {
            return false;
        }
        if ch == '-' {
            if i + 1 >= v.len() {
                return false;
            }
            let ch2: char = v[i + 1];
            if ch2 == '-' {
                return false;
            }
        }
        i = i + 1;
    }
    true
}

#[derive(Debug)]
pub struct L10NBundle {
    pub locale: String,
    pub messages: Vec<L10NMessage>,
}

/// What localizing an id against a bundle yields, when it succeeds.
pub open spec fn spec_localize(
    b: L10NBundle,
    id: Seq<char>,
    args: Seq<(Seq<char>, Seq<char>)>,
) -> Option<Seq<char>> {
    match spec_lookup_msg(b.messages@, id) {
        None => None,
        Some(m) => match m.value {
            None => None,
            Some(p) => Some(spec_format(p.parts@, args)),
        },
    }
}

/// What resolving an attribute of a message yields, when it succeeds.
pub open spec fn spec_attr_format(
    m: L10NMessage,
    attr: Seq<char>,
    args: Seq<(Seq<char>, Seq<char>)>,
) -> Option<Seq<char>> {
    match spec_lookup_attr(m.attributes@, attr) {
        None => None,
        Some(p) => Some(spec_format(p.parts@, args)),
    }
}

impl L10NBundle {
    /// Builds the compiled-in catalog for a supported locale. A string that
    /// is not a plausible language identifier is rejected as such; a
    /// well-formed locale without a compiled-in catalog is rejected as not
    /// localized.
    pub fn new(locale: &str) -> (r: Result<L10NBundle, L10NError>)
        ensures
            match r {
                Ok(b) => b.locale@ == locale@ && (locale@ == "en-US"@ || locale@ == "fr"@)
                    && catalog_complete(b.messages@) && (locale@ == "en-US"@ ==> en_us_texts(
                    b.messages@,
                )),
                Err(L10NError::LanguageIdentifierError(s)) => s@ == locale@ && !langid_wf(
                    locale@,
                ),
                Err(L10NError::NotLocalizedLocale(s)) => s@ == locale@ && langid_wf(locale@) && !(
                locale@ == "en-US"@ || locale@ == "fr"@),
                Err(_) => false,
            },
    {
        if !check_langid(locale) {
            return Err(L10NError::LanguageIdentifierError(String::from_str(locale)));
        }
        match str_to_locale(locale) {
            Some(messages) => Ok(L10NBundle { locale: String::from_str(locale), messages }),
            None => Err(L10NError::NotLocalizedLocale(String::from_str(locale))),
        }
    }

    /// First message with the given id.
    pub fn get_message<'a>(&'a self, msg_id: &str) -> (r: Result<&'a L10NMessage, L10NError>)
        ensures
            match r {
                Ok(m) => spec_lookup_msg(self.messages@, msg_id@) == Some(*m),
                Err(L10NError::MissingMsg(s)) => spec_lookup_msg(self.messages@, msg_id@)
                    is None && s@ == msg_id@,
                Err(_) => false,
            },
    {
        let mut i: usize = 0;
        proof {
            assert(self.messages@.skip(0) =~= self.messages@);
        }
        while i < self.messages.len()
            invariant
                i <= self.messages@.len(),
                spec_lookup_msg(self.messages@, msg_id@) == spec_lookup_msg(
                    self.messages@.skip(i as int),
                    msg_id@,
                ),
            decreases self.messages@.len() - i,
        {
            proof {
                assert(self.messages@.skip(i as int)[0] == self.messages@[i as int]);
                assert(self.messages@.skip(i as int).skip(1) =~= self.messages@.skip(i + 1));
            }
            let m = &self.messages[i];
            if str_eq(m.name.as_str(), msg_id) {
                return Ok(m);
            }
            i = i + 1;
        }
        Err(L10NError::MissingMsg(String::from_str(msg_id)))
    }

    /// Formats the value pattern of a message; fails only when the message
    /// has no value.
    pub fn get_msg_value(
        &self,
        msg: &L10NMessage,
        args: Option<&Vec<(String, String)>>,
    ) -> (r: Result<String, L10NError>)
        ensures
            match r {
                Ok(s) => match msg.value {
                    Some(p) => s@ == spec_format(p.parts@, opt_args(args)),
                    None => false,
                },
                Err(L10NError::MissingValue(n)) => msg.value is None && n@ == msg.name@,
                Err(_) => false,
            },
    {
        match &msg.value {
            Some(p) => Ok(format_pattern(p, args)),
            None => Err(L10NError::MissingValue(String::from_str(msg.name.as_str()))),
        }
    }

    /// Formats an attribute pattern of a message; fails only when the
    /// message has no such attribute.
    pub fn get_msg_attribute(
        &self,
        msg: &L10NMessage,
        attribute: &str,
        args: Option<&Vec<(String, String)>>,
    ) -> (r: Result<String, L10NError>)
        ensures
            match r {
                Ok(s) => spec_attr_format(*msg, attribute@, opt_args(args)) == Some(s@),
                Err(L10NError::MissingAttribute(n, a)) => spec_lookup_attr(
                    msg.attributes@,
                    attribute@,
                ) is None && n@ == msg.name@ && a@ == attribute@,
                Err(_) => false,
            },
    {
        let mut i: usize = 0;
        proof {
            assert(msg.attributes@.skip(0) =~= msg.attributes@);
        }
        while i < msg.attributes.len()
            invariant
                i <= msg.attributes@.len(),
                spec_lookup_attr(msg.attributes@, attribute@) == spec_lookup_attr(
                    msg.attributes@.skip(i as int),
                    attribute@,
                ),
            decreases msg.attributes@.len() - i,
        {
            proof {
                assert(msg.attributes@.skip(i as int)[0] == msg.attributes@[i as int]);
                assert(msg.attributes@.skip(i as int).skip(1) =~= msg.attributes@.skip(i + 1));
            }
            let pair = &msg.attributes[i];
            if str_eq(pair.0.as_str(), attribute) {
                return Ok(format_pattern(&pair.1, args));
            }
            i = i + 1;
        }
        Err(
            L10NError::MissingAttribute(
                String::from_str(msg.name.as_str()),
                String::from_str(attribute),
            ),
        )
    }

    /// Resolves and formats a message id in one step.
    pub fn localize_msg(&self, msg_id: &str, args: Option<&Vec<(String, String)>>) -> (r: Result<
        String,
        L10NError,
    >)
        ensures
            match r {
                Ok(s) => spec_localize(*self, msg_id@, opt_args(args)) == Some(s@),
                Err(e) => spec_localize(*self, msg_id@, opt_args(args)) is None && match e {
                    L10NError::MissingMsg(s) => spec_lookup_msg(self.messages@, msg_id@)
                        is None && s@ == msg_id@,
                    L10NError::MissingValue(n) => match spec_lookup_msg(self.messages@, msg_id@) {
                        Some(m) => m.value is None && n@ == m.name@,
                        None => false,
                    },
                    _ => false,
                },
            },
    {
        let msg = self.get_message(msg_id)?;
        let value = self.get_msg_value(msg, args)?;
        Ok(value)
    }
}

/// The id resolves to a message with a value.
pub open spec fn resolves_value(msgs: Seq<L10NMessage>, id: Seq<char>) -> bool {
    match spec_lookup_msg(msgs, id) {
        Some(m) => m.value is Some,
        None => false,
    }
}

/// The id resolves to a message carrying the named attribute.
pub open spec fn resolves_attr(msgs: Seq<L10NMessage>, id: Seq<char>, attr: Seq<char>) -> bool {
    match spec_lookup_msg(msgs, id) {
        Some(m) => spec_lookup_attr(m.attributes@, attr) is Some,
        None => false,
    }
}

/// The catalog resolves every message the handlers use, with its value,
/// the coin sides of `flipcoin`, and the five attributes of `info-embed`.
pub open spec fn catalog_complete(msgs: Seq<L10NMessage>) -> bool {
    &&& resolves_value(msgs, "ping-msg"@)
    &&& resolves_value(msgs, "ping-msg-heartbeat"@)
    &&& resolves_value(msgs, "info-uptime"@)
    &&& resolves_value(msgs, "info-embed"@)
    &&& resolves_value(msgs, "flipcoin"@)
    &&& resolves_value(msgs, "set-activity-some"@)
    &&& resolves_value(msgs, "set-activity-none"@)
    &&& resolves_value(msgs, "shutting-down"@)
    &&& resolves_value(msgs, "restarting-shards"@)
    &&& resolves_value(msgs, "missing-message"@)
    &&& resolves_value(msgs, "missing-user"@)
    &&& resolves_value(msgs, "wrong-user-id"@)
    &&& resolves_value(msgs, "no-custom-avatar"@)
    &&& resolves_value(msgs, "not-guild-channel"@)
    &&& resolves_value(msgs, "external-guild-channel"@)
    &&& resolves_value(msgs, "roll-no-die"@)
    &&& resolves_value(msgs, "roll-no-side"@)
    &&& resolves_value(msgs, "roll-parsing-error"@)
    &&& resolves_value(msgs, "no-gif"@)
    &&& resolves_value(msgs, "giphy-response-parsing"@)
    &&& resolves_attr(msgs, "flipcoin"@, "heads"@)
    &&& resolves_attr(msgs, "flipcoin"@, "tails"@)
    &&& resolves_attr(msgs, "info-embed"@, "general-title"@)
    &&& resolves_attr(msgs, "info-embed"@, "general-body"@)
    &&& resolves_attr(msgs, "info-embed"@, "config-title"@)
    &&& resolves_attr(msgs, "info-embed"@, "config-body"@)
    &&& resolves_attr(msgs, "info-embed"@, "footer"@)
}

/// One pattern part is the given literal text.
pub open spec fn part_text(p: PatternPart, t: Seq<char>) -> bool {
    p matches PatternPart::Text(s) && s@ == t
}

/// One pattern part is the given argument slot.
pub open spec fn part_arg(p: PatternPart, n: Seq<char>) -> bool {
    p matches PatternPart::Arg(s) && s@ == n
}

/// The value pattern's parts of the message an id looks up to.
pub open spec fn value_parts(msgs: Seq<L10NMessage>, id: Seq<char>) -> Option<Seq<PatternPart>> {
    match spec_lookup_msg(msgs, id) {
        Some(m) => match m.value {
            Some(p) => Some(p.parts@),
            None => None,
        },
        None => None,
    }
}

/// The parts of the named attribute of the message an id looks up to.
pub open spec fn attr_parts(msgs: Seq<L10NMessage>, id: Seq<char>, attr: Seq<char>) -> Option<
    Seq<PatternPart>,
> {
    match spec_lookup_msg(msgs, id) {
        Some(m) => match spec_lookup_attr(m.attributes@, attr) {
            Some(p) => Some(p.parts@),
            None => None,
        },
        None => None,
    }
}

/// The id's value is one literal text.
pub open spec fn plain_value(msgs: Seq<L10NMessage>, id: Seq<char>, t: Seq<char>) -> bool {
    value_parts(msgs, id) matches Some(ps) && ps.len() == 1 && part_text(ps[0], t)
}

/// The id's named attribute is one literal text.
pub open spec fn plain_attr(
    msgs: Seq<L10NMessage>,
    id: Seq<char>,
    attr: Seq<char>,
    t: Seq<char>,
) -> bool {
    attr_parts(msgs, id, attr) matches Some(ps) && ps.len() == 1 && part_text(ps[0], t)
}

/// The id's value is a text, one argument slot, and a closing text.
pub open spec fn wrapped_value(
    msgs: Seq<L10NMessage>,
    id: Seq<char>,
    pre: Seq<char>,
    arg_name: Seq<char>,
    post: Seq<char>,
) -> bool {
    value_parts(msgs, id) matches Some(ps) && ps.len() == 3 && part_text(ps[0], pre) && part_arg(
        ps[1],
        arg_name,
    ) && part_text(ps[2], post)
}

/// The exact texts of the catalog that `en_us_messages` builds: every
/// pattern the handlers format, spelled out part by part.
pub open spec fn en_us_texts(msgs: Seq<L10NMessage>) -> bool {
    &&& wrapped_value(msgs, "ping-msg"@, "Pong! *Ping received after "@, "ping"@, " ms.*"@)
    &&& (value_parts(msgs, "ping-msg-heartbeat"@) matches Some(ps) && ps.len() == 5 && part_text(
        ps[0],
        "Pong! *Ping received after "@,
    ) && part_arg(ps[1], "ping"@) && part_text(
        ps[2],
        " ms.* *Current shard heartbeat ping of "@,
    ) && part_arg(ps[3], "heartbeat"@) && part_text(ps[4], " ms.*"@))
    &&& (value_parts(msgs, "info-uptime"@) matches Some(ps) && ps.len() == 8 && part_arg(
        ps[0],
        "days"@,
    ) && part_text(ps[1], "d:"@) && part_arg(ps[2], "hours"@) && part_text(ps[3], "h:"@)
        && part_arg(ps[4], "mins"@) && part_text(ps[5], "m:"@) && part_arg(ps[6], "secs"@)
        && part_text(ps[7], "s"@))
    &&& plain_value(msgs, "info-embed"@, "__**~Info~**__"@)
    &&& plain_attr(msgs, "info-embed"@, "general-title"@, "**General**"@)
    &&& (attr_parts(msgs, "info-embed"@, "general-body"@) matches Some(ps) && ps.len() == 4
        && part_text(
        ps[0],
        "**Name:** MuDiBot\n**Description:** A multipurpose Discord bot (MuDiBot) made using serenity\n**Author:** Thomas Donovan (tdonovan4)\n**Version:** "@,
    ) && part_arg(ps[1], "version"@) && part_text(ps[2], "\n**Uptime:** "@) && part_arg(
        ps[3],
        "uptime"@,
    ))
    &&& plain_attr(msgs, "info-embed"@, "config-title"@, "**Config**"@)
    &&& (attr_parts(msgs, "info-embed"@, "config-body"@) matches Some(ps) && ps.len() == 2
        && part_text(ps[0], "**Language:** "@) && part_arg(ps[1], "langid"@))
    &&& (attr_parts(msgs, "info-embed"@, "footer"@) matches Some(ps) && ps.len() == 2
        && part_text(ps[0], "Client ID: "@) && part_arg(ps[1], "id"@))
    &&& wrapped_value(msgs, "flipcoin"@, "*The coin lands on "@, "side"@, ".*"@)
    &&& plain_attr(msgs, "flipcoin"@, "heads"@, "heads"@)
    &&& plain_attr(msgs, "flipcoin"@, "tails"@, "tails"@)
    &&& plain_value(msgs, "set-activity-some"@, "Activity successfully modified!"@)
    &&& plain_value(msgs, "set-activity-none"@, "Activity successfully removed!"@)
    &&& plain_value(msgs, "shutting-down"@, "Shutting down..."@)
    &&& plain_value(msgs, "restarting-shards"@, "Restarting shards..."@)
    &&& plain_value(msgs, "missing-message"@, "Missing argument: message."@)
    &&& plain_value(msgs, "missing-user"@, "Missing argument: user."@)
    &&& plain_value(msgs, "wrong-user-id"@, "Wrong user id."@)
    &&& plain_value(msgs, "no-custom-avatar"@, "This user doesn't have a custom avatar."@)
    &&& plain_value(msgs, "not-guild-channel"@, "This channel is a not in a server!"@)
    &&& plain_value(
        msgs,
        "external-guild-channel"@,
        "Sending a message in an external guild channel is not yet supported. :confused:"@,
    )
    &&& plain_value(msgs, "roll-no-die"@, "Alright then, no virtual die for you. :game_die:"@)
    &&& plain_value(
        msgs,
        "roll-no-side"@,
        "*Throws a die but it keeps rolling forever because it doesn't have a face to land on.*"@,
    )
    &&& plain_value(
        msgs,
        "roll-parsing-error"@,
        "This roll could not be parsed. Make sure to include numbers smaller than 256 and follow this syntax: `[num of dice]d<num of sides>[modifier (+ or - a number)]`"@,
    )
    &&& plain_value(msgs, "no-gif"@, "Couldn't find any matching GIF."@)
    &&& plain_value(
        msgs,
        "giphy-response-parsing"@,
        "Couldn't understand the response from Giphy."@,
    )
}

/// A message whose name differs from every earlier name is what its name
/// looks up to.
proof fn lemma_lookup_found(msgs: Seq<L10NMessage>, i: int)
    requires
        0 <= i < msgs.len(),
        forall|j: int| 0 <= j < i ==> (#[trigger] msgs[j].name@) != msgs[i].name@,
    ensures
        spec_lookup_msg(msgs, msgs[i].name@) == Some(msgs[i]),
    decreases i,
{
    if i > 0 {
        assert(msgs[0].name@ != msgs[i].name@);
        assert forall|j: int| 0 <= j < i - 1 implies (#[trigger] msgs.skip(1)[j].name@)
            != msgs.skip(1)[i - 1].name@ by {
            assert(msgs.skip(1)[j] == msgs[j + 1]);
        }
        assert(msgs.skip(1)[i - 1] == msgs[i]);
        lemma_lookup_found(msgs.skip(1), i - 1);
    }
}

/// An attribute whose name differs from every earlier name is what its
/// name looks up to.
proof fn lemma_attr_found(attrs: Seq<(String, Pattern)>, i: int)
    requires
        0 <= i < attrs.len(),
        forall|j: int| 0 <= j < i ==> (#[trigger] attrs[j].0@) != attrs[i].0@,
    ensures
        spec_lookup_attr(attrs, attrs[i].0@) == Some(attrs[i].1),
    decreases i,
{
    if i > 0 {
        assert(attrs[0].0@ != attrs[i].0@);
        assert forall|j: int| 0 <= j < i - 1 implies (#[trigger] attrs.skip(1)[j].0@)
            != attrs.skip(1)[i - 1].0@ by {
            assert(attrs.skip(1)[j] == attrs[j + 1]);
        }
        assert(attrs.skip(1)[i - 1] == attrs[i]);
        lemma_attr_found(attrs.skip(1), i - 1);
    }
}

#[verifier::rlimit(100)]
#[verifier::spinoff_prover]
proof fn lemma_builder_catalog(msgs: Seq<L10NMessage>)
    requires
        msgs.len() == 20,
        msgs[0].name@ == "ping-msg"@ && msgs[0].value is Some,
        msgs[1].name@ == "ping-msg-heartbeat"@ && msgs[1].value is Some,
        msgs[2].name@ == "info-uptime"@ && msgs[2].value is Some,
        msgs[3].name@ == "info-embed"@ && msgs[3].value is Some,
        msgs[4].name@ == "flipcoin"@ && msgs[4].value is Some,
        msgs[5].name@ == "set-activity-some"@ && msgs[5].value is Some,
        msgs[6].name@ == "set-activity-none"@ && msgs[6].value is Some,
        msgs[7].name@ == "shutting-down"@ && msgs[7].value is Some,
        msgs[8].name@ == "restarting-shards"@ && msgs[8].value is Some,
        msgs[9].name@ == "missing-message"@ && msgs[9].value is Some,
        msgs[10].name@ == "missing-user"@ && msgs[10].value is Some,
        msgs[11].name@ == "wrong-user-id"@ && msgs[11].value is Some,
        msgs[12].name@ == "no-custom-avatar"@ && msgs[12].value is Some,
        msgs[13].name@ == "not-guild-channel"@ && msgs[13].value is Some,
        msgs[14].name@ == "external-guild-channel"@ && msgs[14].value is Some,
        msgs[15].name@ == "roll-no-die"@ && msgs[15].value is Some,
        msgs[16].name@ == "roll-no-side"@ && msgs[16].value is Some,
        msgs[17].name@ == "roll-parsing-error"@ && msgs[17].value is Some,
        msgs[18].name@ == "no-gif"@ && msgs[18].value is Some,
        msgs[19].name@ == "giphy-response-parsing"@ && msgs[19].value is Some,
        msgs[4].attributes@.len() == 2,
        msgs[4].attributes@[0].0@ == "heads"@,
        msgs[4].attributes@[1].0@ == "tails"@,
        msgs[3].attributes@.len() == 5,
        msgs[3].attributes@[0].0@ == "general-title"@,
        msgs[3].attributes@[1].0@ == "general-body"@,
        msgs[3].attributes@[2].0@ == "config-title"@,
        msgs[3].attributes@[3].0@ == "config-body"@,
        msgs[3].attributes@[4].0@ == "footer"@,
    ensures
        catalog_complete(msgs),
        spec_lookup_msg(msgs, "ping-msg"@) == Some(msgs[0]),
        spec_lookup_msg(msgs, "ping-msg-heartbeat"@) == Some(msgs[1]),
        spec_lookup_msg(msgs, "info-uptime"@) == Some(msgs[2]),
        spec_lookup_msg(msgs, "info-embed"@) == Some(msgs[3]),
        spec_lookup_msg(msgs, "flipcoin"@) == Some(msgs[4]),
        spec_lookup_msg(msgs, "set-activity-some"@) == Some(msgs[5]),
        spec_lookup_msg(msgs, "set-activity-none"@) == Some(msgs[6]),
        spec_lookup_msg(msgs, "shutting-down"@) == Some(msgs[7]),
        spec_lookup_msg(msgs, "restarting-shards"@) == Some(msgs[8]),
        spec_lookup_msg(msgs, "missing-message"@) == Some(msgs[9]),
        spec_lookup_msg(msgs, "missing-user"@) == Some(msgs[10]),
        spec_lookup_msg(msgs, "wrong-user-id"@) == Some(msgs[11]),
        spec_lookup_msg(msgs, "no-custom-avatar"@) == Some(msgs[12]),
        spec_lookup_msg(msgs, "not-guild-channel"@) == Some(msgs[13]),
        spec_lookup_msg(msgs, "external-guild-channel"@) == Some(msgs[14]),
        spec_lookup_msg(msgs, "roll-no-die"@) == Some(msgs[15]),
        spec_lookup_msg(msgs, "roll-no-side"@) == Some(msgs[16]),
        spec_lookup_msg(msgs, "roll-parsing-error"@) == Some(msgs[17]),
        spec_lookup_msg(msgs, "no-gif"@) == Some(msgs[18]),
        spec_lookup_msg(msgs, "giphy-response-parsing"@) == Some(msgs[19]),
        spec_lookup_attr(msgs[4].attributes@, "heads"@) == Some(msgs[4].attributes@[0].1),
        spec_lookup_attr(msgs[4].attributes@, "tails"@) == Some(msgs[4].attributes@[1].1),
        spec_lookup_attr(msgs[3].attributes@, "general-title"@) == Some(msgs[3].attributes@[0].1),
        spec_lookup_attr(msgs[3].attributes@, "general-body"@) == Some(msgs[3].attributes@[1].1),
        spec_lookup_attr(msgs[3].attributes@, "config-title"@) == Some(msgs[3].attributes@[2].1),
        spec_lookup_attr(msgs[3].attributes@, "config-body"@) == Some(msgs[3].attributes@[3].1),
        spec_lookup_attr(msgs[3].attributes@, "footer"@) == Some(msgs[3].attributes@[4].1),
{
    reveal_strlit("ping-msg");
    reveal_strlit("ping-msg-heartbeat");
    reveal_strlit("info-uptime");
    reveal_strlit("info-embed");
    reveal_strlit("flipcoin");
    reveal_strlit("set-activity-some");
    reveal_strlit("set-activity-none");
    reveal_strlit("shutting-down");
    reveal_strlit("restarting-shards");
    reveal_strlit("missing-message");
    reveal_strlit("missing-user");
    reveal_strlit("wrong-user-id");
    reveal_strlit("no-custom-avatar");
    reveal_strlit("not-guild-channel");
    reveal_strlit("external-guild-channel");
    reveal_strlit("roll-no-die");
    reveal_strlit("roll-no-side");
    reveal_strlit("roll-parsing-error");
    reveal_strlit("no-gif");
    reveal_strlit("giphy-response-parsing");
    reveal_strlit("heads");
    reveal_strlit("tails");
    reveal_strlit("general-title");
    reveal_strlit("general-body");
    reveal_strlit("config-title");
    reveal_strlit("config-body");
    reveal_strlit("footer");
    assert("ping-msg"@.len() == 8 && "ping-msg"@[0] == 'p');
    assert("ping-msg-heartbeat"@.len() == 18 && "ping-msg-heartbeat"@[0] == 'p');
    assert("info-uptime"@.len() == 11 && "info-uptime"@[0] == 'i');
    assert("info-embed"@.len() == 10);
    assert("flipcoin"@.len() == 8 && "flipcoin"@[0] == 'f');
    assert("set-activity-some"@.len() == 17 && "set-activity-some"@[0] == 's'
        && "set-activity-some"@[13] == 's');
    assert("set-activity-none"@.len() == 17 && "set-activity-none"@[0] == 's'
        && "set-activity-none"@[13] == 'n');
    assert("shutting-down"@.len() == 13 && "shutting-down"@[0] == 's');
    assert("restarting-shards"@.len() == 17 && "restarting-shards"@[0] == 'r');
    assert("missing-message"@.len() == 15);
    assert("missing-user"@.len() == 12 && "missing-user"@[0] == 'm');
    assert("wrong-user-id"@.len() == 13 && "wrong-user-id"@[0] == 'w');
    assert("no-custom-avatar"@.len() == 16);
    assert("not-guild-channel"@.len() == 17 && "not-guild-channel"@[0] == 'n');
    assert("external-guild-channel"@.len() == 22 && "external-guild-channel"@[0] == 'e');
    assert("roll-no-die"@.len() == 11 && "roll-no-die"@[0] == 'r');
    assert("roll-no-side"@.len() == 12 && "roll-no-side"@[0] == 'r');
    assert("roll-parsing-error"@.len() == 18 && "roll-parsing-error"@[0] == 'r');
    assert("no-gif"@.len() == 6);
    assert("giphy-response-parsing"@.len() == 22 && "giphy-response-parsing"@[0] == 'g');
    assert("heads"@.len() == 5 && "heads"@[0] == 'h');
    assert("tails"@.len() == 5 && "tails"@[0] == 't');
    assert("general-title"@.len() == 13);
    assert("general-body"@.len() == 12 && "general-body"@[0] == 'g');
    assert("config-title"@.len() == 12 && "config-title"@[0] == 'c');
    assert("config-body"@.len() == 11 && "config-body"@[0] == 'c');
    assert("footer"@.len() == 6);
    lemma_lookup_found(msgs, 0);
    lemma_lookup_found(msgs, 1);
    lemma_lookup_found(msgs, 2);
    lemma_lookup_found(msgs, 3);
    lemma_lookup_found(msgs, 4);
    lemma_lookup_found(msgs, 5);
    lemma_lookup_found(msgs, 6);
    lemma_lookup_found(msgs, 7);
    lemma_lookup_found(msgs, 8);
    lemma_lookup_found(msgs, 9);
    lemma_lookup_found(msgs, 10);
    lemma_lookup_found(msgs, 11);
    lemma_lookup_found(msgs, 12);
    lemma_lookup_found(msgs, 13);
    lemma_lookup_found(msgs, 14);
    lemma_lookup_found(msgs, 15);
    lemma_lookup_found(msgs, 16);
    lemma_lookup_found(msgs, 17);
    lemma_lookup_found(msgs, 18);
    lemma_lookup_found(msgs, 19);
    lemma_attr_found(msgs[4].attributes@, 0);
    lemma_attr_found(msgs[4].attributes@, 1);
    lemma_attr_found(msgs[3].attributes@, 0);
    lemma_attr_found(msgs[3].attributes@, 1);
    lemma_attr_found(msgs[3].attributes@, 2);
    lemma_attr_found(msgs[3].attributes@, 3);
    lemma_attr_found(msgs[3].attributes@, 4);
}

fn txt(s: &str) -> (p: PatternPart)
    ensures
        p matches PatternPart::Text(t) && t@ == s@,
{
    PatternPart::Text(String::from_str(s))
}

fn arg(s: &str) -> (p: PatternPart)
    ensures
        p matches PatternPart::Arg(n) && n@ == s@,
{
    PatternPart::Arg(String::from_str(s))
}

fn msg_value(name: &str, parts: Vec<PatternPart>) -> (m: L10NMessage)
    ensures
        m.name@ == name@,
        m.value == (Some(Pattern { parts })),
        m.attributes@.len() == 0,
{
    L10NMessage {
        name: String::from_str(name),
        value: Some(Pattern { parts }),
        attributes: Vec::new(),
    }
}

/// The compiled-in catalog for a supported locale; `None` for any other.
pub fn str_to_locale(locale: &str) -> (r: Option<Vec<L10NMessage>>)
    ensures
        r is Some <==> (locale@ == "en-US"@ || locale@ == "fr"@),
        r matches Some(m) ==> catalog_complete(m@),
        locale@ == "en-US"@ ==> (r matches Some(m) && en_us_texts(m@)),
{
    if str_eq(locale, "en-US") {
        Some(en_us_messages())
    } else if str_eq(locale, "fr") {
        Some(fr_messages())
    } else {
        None
    }
}

#[verifier::rlimit(100)]
#[verifier::spinoff_prover]
fn en_us_messages() -> (r: Vec<L10NMessage>)
    ensures
        catalog_complete(r@),
        en_us_texts(r@),
{
    let mut msgs: Vec<L10NMessage> = Vec::new();
    msgs.push(
        msg_value(
            "ping-msg",
            vec![txt("Pong! *Ping received after "), arg("ping"), txt(" ms.*")],
        ),
    );
    msgs.push(
        msg_value(
            "ping-msg-heartbeat",
            vec![
                txt("Pong! *Ping received after "),
                arg("ping"),
                txt(" ms.* *Current shard heartbeat ping of "),
                arg("heartbeat"),
                txt(" ms.*"),
            ],
        ),
    );
    msgs.push(
        msg_value(
            "info-uptime",
            vec![
                arg("days"),
                txt("d:"),
                arg("hours"),
                txt("h:"),
                arg("mins"),
                txt("m:"),
                arg("secs"),
                txt("s"),
            ],
        ),
    );
    let mut info_attrs: Vec<(String, Pattern)> = Vec::new();
    info_attrs.push(
        (String::from_str("general-title"), Pattern { parts: vec![txt("**General**")] }),
    );
    info_attrs.push(
        (
            String::from_str("general-body"),
            Pattern {
                parts: vec![
                    txt(
                        "**Name:** MuDiBot\n**Description:** A multipurpose Discord bot (MuDiBot) made using serenity\n**Author:** Thomas Donovan (tdonovan4)\n**Version:** ",
                    ),
                    arg("version"),
                    txt("\n**Uptime:** "),
                    arg("uptime"),
                ],
            },
        ),
    );
    info_attrs.push(
        (String::from_str("config-title"), Pattern { parts: vec![txt("**Config**")] }),
    );
    info_attrs.push(
        (
            String::from_str("config-body"),
            Pattern { parts: vec![txt("**Language:** "), arg("langid")] },
        ),
    );
    info_attrs.push(
        (
            String::from_str("footer"),
            Pattern { parts: vec![txt("Client ID: "), arg("id")] },
        ),
    );
    msgs.push(
        L10NMessage {
            name: String::from_str("info-embed"),
            value: Some(Pattern { parts: vec![txt("__**~Info~**__")] }),
            attributes: info_attrs,
        },
    );
    let mut flip_attrs: Vec<(String, Pattern)> = Vec::new();
    flip_attrs.push((String::from_str("heads"), Pattern { parts: vec![txt("heads")] }));
    flip_attrs.push((String::from_str("tails"), Pattern { parts: vec![txt("tails")] }));
    msgs.push(
        L10NMessage {
            name: String::from_str("flipcoin"),
            value: Some(
                Pattern { parts: vec![txt("*The coin lands on "), arg("side"), txt(".*")] },
            ),
            attributes: flip_attrs,
        },
    );
    msgs.push(msg_value("set-activity-some", vec![txt("Activity successfully modified!")]));
    msgs.push(msg_value("set-activity-none", vec![txt("Activity successfully removed!")]));
    msgs.push(msg_value("shutting-down", vec![txt("Shutting down...")]));
    msgs.push(msg_value("restarting-shards", vec![txt("Restarting shards...")]));
    msgs.push(msg_value("missing-message", vec![txt("Missing argument: message.")]));
    msgs.push(msg_value("missing-user", vec![txt("Missing argument: user.")]));
    msgs.push(msg_value("wrong-user-id", vec![txt("Wrong user id.")]));
    msgs.push(
        msg_value("no-custom-avatar", vec![txt("This user doesn't have a custom avatar.")]),
    );
    msgs.push(msg_value("not-guild-channel", vec![txt("This channel is a not in a server!")]));
    msgs.push(
        msg_value(
            "external-guild-channel",
            vec![
                txt("Sending a message in an external guild channel is not yet supported. :confused:"),
            ],
        ),
    );
    msgs.push(
        msg_value("roll-no-die", vec![txt("Alright then, no virtual die for you. :game_die:")]),
    );
    msgs.push(
        msg_value(
            "roll-no-side",
            vec![
                txt(
                    "*Throws a die but it keeps rolling forever because it doesn't have a face to land on.*",
                ),
            ],
        ),
    );
    msgs.push(
        msg_value(
            "roll-parsing-error",
            vec![
                txt(
                    "This roll could not be parsed. Make sure to include numbers smaller than 256 and follow this syntax: `[num of dice]d<num of sides>[modifier (+ or - a number)]`",
                ),
            ],
        ),
    );
    msgs.push(msg_value("no-gif", vec![txt("Couldn't find any matching GIF.")]));
    msgs.push(
        msg_value(
            "giphy-response-parsing",
            vec![txt("Couldn't understand the response from Giphy.")],
        ),
    );
    proof {
        lemma_builder_catalog(msgs@);
        assert(en_us_texts(msgs@));
    }
    msgs
}

#[verifier::rlimit(100)]
#[verifier::spinoff_prover]
fn fr_messages() -> (r: Vec<L10NMessage>)
    ensures
        catalog_complete(r@),
{
    let mut msgs: Vec<L10NMessage> = Vec::new();
    msgs.push(
        msg_value(
            "ping-msg",
            vec![txt("Pong! *Ping recu apres "), arg("ping"), txt(" ms.*")],
        ),
    );
    msgs.push(
        msg_value(
            "ping-msg-heartbeat",
            vec![
                txt("Pong! *Ping recu apres "),
                arg("ping"),
                txt(" ms.* *Battement de coeur actuel du shard de "),
                arg("heartbeat"),
                txt(" ms.*"),
            ],
        ),
    );
    msgs.push(
        msg_value(
            "info-uptime",
            vec![
                arg("days"),
                txt("j:"),
                arg("hours"),
                txt("h:"),
                arg("mins"),
                txt("m:"),
                arg("secs"),
                txt("s"),
            ],
        ),
    );
    let mut info_attrs: Vec<(String, Pattern)> = Vec::new();
    info_attrs.push(
        (String::from_str("general-title"), Pattern { parts: vec![txt("**General**")] }),
    );
    info_attrs.push(
        (
            String::from_str("general-body"),
            Pattern {
                parts: vec![
                    txt(
                        "**Nom:** MuDiBot\n**Description:** Un bot Discord multifonction (MuDiBot) fait avec serenity\n**Auteur:** Thomas Donovan (tdonovan4)\n**Version:** ",
                    ),
                    arg("version"),
                    txt("\n**Uptime:** "),
                    arg("uptime"),
                ],
            },
        ),
    );
    info_attrs.push(
        (String::from_str("config-title"), Pattern { parts: vec![txt("**Config**")] }),
    );
    info_attrs.push(
        (
            String::from_str("config-body"),
            Pattern { parts: vec![txt("**Langue:** "), arg("langid")] },
        ),
    );
    info_attrs.push(
        (
            String::from_str("footer"),
            Pattern { parts: vec![txt("ID du client: "), arg("id")] },
        ),
    );
    msgs.push(
        L10NMessage {
            name: String::from_str("info-embed"),
            value: Some(Pattern { parts: vec![txt("__**~Infos~**__")] }),
            attributes: info_attrs,
        },
    );
    let mut flip_attrs: Vec<(String, Pattern)> = Vec::new();
    flip_attrs.push((String::from_str("heads"), Pattern { parts: vec![txt("face")] }));
    flip_attrs.push((String::from_str("tails"), Pattern { parts: vec![txt("pile")] }));
    msgs.push(
        L10NMessage {
            name: String::from_str("flipcoin"),
            value: Some(
                Pattern { parts: vec![txt("*La piece tombe sur "), arg("side"), txt(".*")] },
            ),
            attributes: flip_attrs,
        },
    );
    msgs.push(msg_value("set-activity-some", vec![txt("Activite modifiee avec succes!")]));
    msgs.push(msg_value("set-activity-none", vec![txt("Activite retiree avec succes!")]));
    msgs.push(msg_value("shutting-down", vec![txt("Extinction...")]));
    msgs.push(msg_value("restarting-shards", vec![txt("Redemarrage des shards...")]));
    msgs.push(msg_value("missing-message", vec![txt("Argument manquant: message.")]));
    msgs.push(msg_value("missing-user", vec![txt("Argument manquant: utilisateur.")]));
    msgs.push(msg_value("wrong-user-id", vec![txt("Mauvais id d'utilisateur.")]));
    msgs.push(
        msg_value("no-custom-avatar", vec![txt("Cet utilisateur n'a pas d'avatar personnalise.")]),
    );
    msgs.push(msg_value("not-guild-channel", vec![txt("Ce canal n'est pas dans un serveur!")]));
    msgs.push(
        msg_value(
            "external-guild-channel",
            vec![
                txt("Envoyer un message dans le canal d'un autre serveur n'est pas encore supporte. :confused:"),
            ],
        ),
    );
    msgs.push(
        msg_value("roll-no-die", vec![txt("Bon, pas de de virtuel pour toi. :game_die:")]),
    );
    msgs.push(
        msg_value(
            "roll-no-side",
            vec![
                txt("*Lance un de, mais il roule pour toujours parce qu'il n'a pas de face.*"),
            ],
        ),
    );
    msgs.push(
        msg_value(
            "roll-parsing-error",
            vec![
                txt(
                    "Ce lancer n'a pas pu etre compris. Utilisez des nombres plus petits que 256 et cette syntaxe: `[nombre de des]d<nombre de faces>[modificateur (+ ou - un nombre)]`",
                ),
            ],
        ),
    );
    msgs.push(msg_value("no-gif", vec![txt("Aucun GIF correspondant trouve.")]));
    msgs.push(
        msg_value(
            "giphy-response-parsing",
            vec![txt("La reponse de Giphy n'a pas pu etre comprise.")],
        ),
    );
    proof {
        lemma_builder_catalog(msgs@);
    }
    msgs
}

} // verus!
