//! Parsing of the dispatcher's log lines, so the surrounding program can
//! recolor their fields. The line grammars are fixed: a guild line is
//! `[<guild>-<channel>] <rest>`, a plain line is `[<channel>] <rest>`, and
//! the rest is `<author><<id>> -> <command><args>` where the author mark is
//! the last `<` that a digit run, `> -> ` and a command follow.

use vstd::prelude::*;
use crate::text::digit_run_end;
use crate::arguments::find_space;
use crate::text::{chars_of, string_from_chars, subchars};

verus! {

#[derive(Debug, PartialEq)]
pub enum CmdLogParseError {
    NoCaptures,
}

/// The pieces of a guild-tagged line.
#[derive(Debug, PartialEq)]
pub struct CmdGuildLine {
    pub guild_id: String,
    pub channel_id: String,
    pub rest: String,
}

/// The pieces of a line outside a guild.
#[derive(Debug, PartialEq)]
pub struct CmdLine {
    pub channel_id: String,
    pub rest: String,
}

/// The author, id, command and argument pieces of a line body.
#[derive(Debug, PartialEq)]
pub struct AuthorAndMsg {
    pub author: String,
    pub user_id: String,
    pub cmd: String,
    pub args: String,
}

/// Whether `[digits-digits] rest` splits here: the first digit run, a dash,
/// the second digit run, a closing bracket, a space, and a non-empty rest.
pub open spec fn guild_line_shape(s: Seq<char>) -> Option<(int, int)> {
    let d1 = digit_run_end(s, 1);
    let d2 = digit_run_end(s, d1 + 1);
    if s.len() >= 2 && s[0] == '[' && d1 > 1 && d1 < s.len() && s[d1] == '-' && d2 > d1 + 1 && d2
        + 1 < s.len() && s[d2] == ']' && s[d2 + 1] == ' ' && d2 + 2 < s.len() {
        Some((d1, d2))
    } else {
        None
    }
}

/// Splits a guild-tagged line into its guild id, channel id and rest.
pub fn parse_cmd_guild(log: &str) -> (r: Result<CmdGuildLine, CmdLogParseError>)
    ensures
        match r {
            Ok(p) => guild_line_shape(log@) matches Some((d1, d2)) && p.guild_id@ == log@.subrange(
                1,
                d1,
            ) && p.channel_id@ == log@.subrange(d1 + 1, d2) && p.rest@ == log@.subrange(
                d2 + 2,
                log@.len() as int,
            ),
            Err(_) => guild_line_shape(log@) is None,
        },
{
    let v = chars_of(log);
    if v.len() < 2 || v[0] != '[' {
        return Err(CmdLogParseError::NoCaptures);
    }
    let d1 = scan_digits(&v, 1);
    if d1 <= 1 || d1 >= v.len() || v[d1] != '-' {
        return Err(CmdLogParseError::NoCaptures);
    }
    let d2 = scan_digits(&v, d1 + 1);
    if d2 <= d1 + 1 || d2 >= v.len() || v[d2] != ']' {
        return Err(CmdLogParseError::NoCaptures);
    }
    if d2 + 1 >= v.len() || v[d2 + 1] != ' ' || d2 + 2 >= v.len() {
        return Err(CmdLogParseError::NoCaptures);
    }
    let guild_id = subchars(&v, 1, d1);
    let channel_id = subchars(&v, d1 + 1, d2);
    let rest = subchars(&v, d2 + 2, v.len());
    Ok(
        CmdGuildLine {
            guild_id: string_from_chars(&guild_id),
            channel_id: string_from_chars(&channel_id),
            rest: string_from_chars(&rest),
        },
    )
}

/// Whether `[digits] rest` splits here.
pub open spec fn line_shape(s: Seq<char>) -> Option<int> {
    let d1 = digit_run_end(s, 1);
    if s.len() >= 2 && s[0] == '[' && d1 > 1 && d1 + 1 < s.len() && s[d1] == ']' && s[d1 + 1]
        == ' ' && d1 + 2 < s.len() {
        Some(d1)
    } else {
        None
    }
}

/// Splits a plain line into its channel id and rest.
pub fn parse_cmd_not_guild(log: &str) -> (r: Result<CmdLine, CmdLogParseError>)
    ensures
        match r {
            Ok(p) => line_shape(log@) matches Some(d1) && p.channel_id@ == log@.subrange(1, d1)
                && p.rest@ == log@.subrange(d1 + 2, log@.len() as int),
            Err(_) => line_shape(log@) is None,
        },
{
    let v = chars_of(log);
    if v.len() < 2 || v[0] != '[' {
        return Err(CmdLogParseError::NoCaptures);
    }
    let d1 = scan_digits(&v, 1);
    if d1 <= 1 || d1 >= v.len() || v[d1] != ']' {
        return Err(CmdLogParseError::NoCaptures);
    }
    if d1 + 1 >= v.len() || v[d1 + 1] != ' ' || d1 + 2 >= v.len() {
        return Err(CmdLogParseError::NoCaptures);
    }
    let channel_id = subchars(&v, 1, d1);
    let rest = subchars(&v, d1 + 2, v.len());
    Ok(CmdLine { channel_id: string_from_chars(&channel_id), rest: string_from_chars(&rest) })
}

/// Whether the author mark pattern completes at `i`: a `<`, a non-empty
/// digit run, `> -> `, and a command that starts with a non-space.
pub open spec fn author_mark_at(s: Seq<char>, i: int) -> bool {
    let j = digit_run_end(s, i + 1);
    &&& 1 <= i < s.len()
    &&& s[i] == '<'
    &&& j > i + 1
    &&& j + 5 < s.len()
    &&& s[j] == '>'
    &&& s[j + 1] == ' '
    &&& s[j + 2] == '-'
    &&& s[j + 3] == '>'
    &&& s[j + 4] == ' '
    &&& s[j + 5] != ' '
}

/// The last position where the author mark pattern completes, or a
/// negative value.
pub open spec fn last_author_mark(s: Seq<char>, i: int) -> int
    decreases i,
{
    if i < 1 {
        -1
    } else if author_mark_at(s, i) {
        i
    } else {
        last_author_mark(s, i - 1)
    }
}

fn check_mark(v: &Vec<char>, i: usize) -> (r: bool)
    requires
        1 <= i < v@.len(),
    ensures
        r == author_mark_at(v@, i as int),
{
    let n = v.len();
    if v[i] != '<' {
        return false;
    }
    let j = scan_digits(v, i + 1);
    if j <= i + 1 {
        return false;
    }
    if n - j < 6 {
        return false;
    }
    v[j] == '>' && v[j + 1] == ' ' && v[j + 2] == '-' && v[j + 3] == '>' && v[j + 4] == ' ' && v[j
        + 5] != ' '
}

/// First position at or after `from` that holds no digit.
fn scan_digits(v: &Vec<char>, from: usize) -> (r: usize)
    requires
        from <= v@.len(),
    ensures
        r == digit_run_end(v@, from as int),
        from <= r <= v@.len(),
{
    let mut i = from;
    while i < v.len() && '0' <= v[i] && v[i] <= '9'
        invariant
            from <= i <= v@.len(),
            digit_run_end(v@, from as int) == digit_run_end(v@, i as int),
        decreases v@.len() - i,
    {
        i = i + 1;
    }
    i
}

/// Splits a line body into author, user id, command and arguments, the
/// author being everything before the last completing author mark.
pub fn format_author_and_msg(rest: &str) -> (r: Result<AuthorAndMsg, CmdLogParseError>)
    ensures
        match r {
            Ok(p) => ({
                let s = rest@;
                let i = last_author_mark(s, s.len() - 1);
                let j = digit_run_end(s, i + 1);
                let ce = find_space(s, j + 5);
                &&& i >= 1
                &&& p.author@ == s.subrange(0, i)
                &&& p.user_id@ == s.subrange(i + 1, j)
                &&& p.cmd@ == s.subrange(j + 5, ce)
                &&& p.args@ == s.subrange(ce, s.len() as int)
            }),
            Err(_) => last_author_mark(rest@, rest@.len() - 1) < 1,
        },
{
    let v = chars_of(rest);
    if v.len() < 2 {
        proof {
            lemma_no_mark(rest@, rest@.len() - 1);
        }
        return Err(CmdLogParseError::NoCaptures);
    }
    let n = v.len();
    let mut i: usize = n - 1;
    loop
        invariant
            1 <= i < v@.len(),
            n == v@.len(),
            v@ == rest@,
            last_author_mark(rest@, rest@.len() - 1) == last_author_mark(rest@, i as int),
        decreases i,
    {
        if check_mark(&v, i) {
            let j = scan_digits(&v, i + 1);
            assert(j as int + 5 < n as int);
            let mut ce: usize = j + 5;
            while ce < v.len() && v[ce] != ' '
                invariant
                    j + 5 <= ce <= v@.len(),
                    v@ == rest@,
                    find_space(rest@, (j + 5) as int) == find_space(rest@, ce as int),
                decreases v@.len() - ce,
            {
                ce = ce + 1;
            }
            let author = subchars(&v, 0, i);
            let user_id = subchars(&v, i + 1, j);
            let cmd = subchars(&v, j + 5, ce);
            let args = subchars(&v, ce, v.len());
            return Ok(
                AuthorAndMsg {
                    author: string_from_chars(&author),
                    user_id: string_from_chars(&user_id),
                    cmd: string_from_chars(&cmd),
                    args: string_from_chars(&args),
                },
            );
        }
        if i == 1 {
            proof {
                assert(last_author_mark(rest@, 0) == -1);
                assert(last_author_mark(rest@, 1) < 1);
            }
            return Err(CmdLogParseError::NoCaptures);
        }
        i = i - 1;
    }
}

/// A text with four spaces of indentation inserted after every newline,
/// so a multi-line body lines up under its header.
pub open spec fn indented(s: Seq<char>) -> Seq<char>
    decreases s.len(),
{
    if s.len() == 0 {
        Seq::empty()
    } else if s[0] == '\n' {
        seq!['\n', ' ', ' ', ' ', ' '] + indented(s.skip(1))
    } else {
        seq![s[0]] + indented(s.skip(1))
    }
}

/// Indents the continuation lines of a log body.
pub fn indent_args(s: &str) -> (r: String)
    ensures
        r@ == indented(s@),
{
    let v = chars_of(s);
    let mut out: Vec<char> = Vec::new();
    let mut i: usize = 0;
    proof {
        assert(s@.skip(0) =~= s@);
    }
    while i < v.len()
        invariant
            i <= v@.len(),
            v@ == s@,
            indented(s@) == out@ + indented(s@.skip(i as int)),
        decreases v@.len() - i,
    {
        proof {
            assert(s@.skip(i as int)[0] == s@[i as int]);
            assert(s@.skip(i as int).skip(1) =~= s@.skip(i + 1));
        }
        let c = v[i];
        if c == '\n' {
            out.push('\n');
            out.push(' ');
            out.push(' ');
            out.push(' ');
            out.push(' ');
        } else {
            out.push(c);
        }
        i = i + 1;
    }
    proof {
        assert(s@.skip(s@.len() as int) =~= Seq::<char>::empty());
    }
    string_from_chars(&out)
}

proof fn lemma_no_mark(s: Seq<char>, i: int)
    requires
        s.len() < 2,
    ensures
        last_author_mark(s, i) < 1,
    decreases i,
{
    if i >= 1 {
        lemma_no_mark(s, i - 1);
    }
}

} // verus!
