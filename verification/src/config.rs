//! The bot's configuration: its data model, the canonical file format it is
//! persisted in, and the reading and writing of that format.
//!
//! The file format is a fixed subset of TOML: the three tables in a fixed
//! order, `key = value` lines, quoted strings without escape sequences,
//! decimal integers, booleans, one bracketed integer list, and an array of
//! tables for the permission groups.

use vstd::prelude::*;
use crate::text::{
    dec_digits,
    u64_to_string,
    chars_of,
    parse_dec_u64,
    string_from_chars,
    subchars,
    vec_str_eq,
};

verus! {

#[derive(Debug, PartialEq)]
pub enum ConfigError {
    Io(String),
    Deserialize(String),
    MissingFromShareMap,
}

/// Tokens of the different APIs used by the bot.
#[derive(Debug, PartialEq)]
pub struct Credentials {
    pub bot_token: Option<String>,
    pub youtube_api_key: Option<String>,
    pub giphy_api_key: Option<String>,
}

/// Options of the metrics exporter.
#[derive(Debug, PartialEq)]
pub struct Metrics {
    pub activated: bool,
    pub exporter_port: u32,
}

/// Options affecting the entire bot.
#[derive(Debug, PartialEq)]
pub struct Global {
    pub current_status: String,
    pub path_database: String,
    pub superusers: Option<Vec<u64>>,
    pub xp_cooldown: u32,
    pub activity: Option<String>,
    pub metrics: Metrics,
}

/// One permission group.
#[derive(Debug, PartialEq)]
pub struct PermissionGroup {
    pub name: String,
    pub perm_lvl: u32,
    pub max_custom_cmds: u32,
}

/// Options that a server configuration may override.
#[derive(Debug, PartialEq)]
pub struct ServerSpecific {
    pub prefix: String,
    pub locale: String,
    pub permission_groups: Vec<PermissionGroup>,
}

/// The whole configuration.
#[derive(Debug, PartialEq)]
pub struct Config {
    pub credentials: Credentials,
    pub global: Global,
    pub server_specific: ServerSpecific,
}

// ------------------------------------------------------------------
// The canonical file format, at the specification level.
// ------------------------------------------------------------------

/// `key = "value"` and a newline.
pub open spec fn str_line(key: Seq<char>, v: Seq<char>) -> Seq<char> {
    key + " = \""@ + v + "\"\n"@
}

/// Nothing for `None`, the string line for `Some`.
pub open spec fn opt_str_line(key: Seq<char>, v: Option<String>) -> Seq<char> {
    match v {
        None => Seq::empty(),
        Some(s) => str_line(key, s@),
    }
}

/// `key = n` and a newline.
pub open spec fn num_line(key: Seq<char>, n: nat) -> Seq<char> {
    key + " = "@ + dec_digits(n) + "\n"@
}

/// `key = true` or `key = false` and a newline.
pub open spec fn bool_line(key: Seq<char>, b: bool) -> Seq<char> {
    key + " = "@ + (if b {
        "true"@
    } else {
        "false"@
    }) + "\n"@
}

/// The elements of an integer list, separated by `, `.
pub open spec fn num_list(xs: Seq<u64>) -> Seq<char>
    decreases xs.len(),
{
    if xs.len() == 0 {
        Seq::empty()
    } else if xs.len() == 1 {
        dec_digits(xs[0] as nat)
    } else {
        dec_digits(xs[0] as nat) + ", "@ + num_list(xs.skip(1))
    }
}

/// Nothing for `None`, `key = [ ... ]` and a newline for `Some`.
pub open spec fn opt_num_list_line(key: Seq<char>, v: Option<Vec<u64>>) -> Seq<char> {
    match v {
        None => Seq::empty(),
        Some(xs) => key + " = ["@ + num_list(xs@) + "]\n"@,
    }
}

/// One `[[server_specific.permission_groups]]` table.
pub open spec fn group_toml(g: PermissionGroup) -> Seq<char> {
    "[[server_specific.permission_groups]]\n"@ + str_line("name"@, g.name@) + num_line(
        "perm_lvl"@,
        g.perm_lvl as nat,
    ) + num_line("max_custom_cmds"@, g.max_custom_cmds as nat)
}

/// All permission group tables, in order.
pub open spec fn groups_toml(gs: Seq<PermissionGroup>) -> Seq<char>
    decreases gs.len(),
{
    if gs.len() == 0 {
        Seq::empty()
    } else {
        group_toml(gs[0]) + groups_toml(gs.skip(1))
    }
}

/// The canonical rendering of a configuration.
pub open spec fn spec_config_toml(c: Config) -> Seq<char> {
    "[credentials]\n"@ + opt_str_line("bot_token"@, c.credentials.bot_token) + opt_str_line(
        "youtube_api_key"@,
        c.credentials.youtube_api_key,
    ) + opt_str_line("giphy_api_key"@, c.credentials.giphy_api_key) + "[global]\n"@ + str_line(
        "current_status"@,
        c.global.current_status@,
    ) + str_line("path_database"@, c.global.path_database@) + opt_num_list_line(
        "superusers"@,
        c.global.superusers,
    ) + num_line("xp_cooldown"@, c.global.xp_cooldown as nat) + opt_str_line(
        "activity"@,
        c.global.activity,
    ) + "[global.metrics]\n"@ + bool_line("activated"@, c.global.metrics.activated) + num_line(
        "exporter_port"@,
        c.global.metrics.exporter_port as nat,
    ) + "[server_specific]\n"@ + str_line("prefix"@, c.server_specific.prefix@) + str_line(
        "locale"@,
        c.server_specific.locale@,
    ) + groups_toml(c.server_specific.permission_groups@)
}

// ------------------------------------------------------------------
// Emission.
// ------------------------------------------------------------------

fn emit_str_line(out: &mut String, key: &str, v: &str)
    ensures
        final(out)@ == old(out)@ + str_line(key@, v@),
{
    out.append(key);
    out.append(" = \"");
    out.append(v);
    out.append("\"\n");
    assert(final(out)@ =~= old(out)@ + str_line(key@, v@));
}

fn emit_opt_str_line(out: &mut String, key: &str, v: &Option<String>)
    ensures
        final(out)@ == old(out)@ + opt_str_line(key@, *v),
{
    match v {
        Some(s) => {
            emit_str_line(out, key, s.as_str());
        },
        None => {
            assert(final(out)@ =~= old(out)@ + opt_str_line(key@, *v));
        },
    }
}

fn emit_num_line(out: &mut String, key: &str, n: u64)
    ensures
        final(out)@ == old(out)@ + num_line(key@, n as nat),
{
    out.append(key);
    out.append(" = ");
    let digits = u64_to_string(n);
    out.append(digits.as_str());
    out.append("\n");
    assert(final(out)@ =~= old(out)@ + num_line(key@, n as nat));
}

fn emit_bool_line(out: &mut String, key: &str, b: bool)
    ensures
        final(out)@ == old(out)@ + bool_line(key@, b),
{
    out.append(key);
    out.append(" = ");
    if b {
        out.append("true");
    } else {
        out.append("false");
    }
    out.append("\n");
    assert(final(out)@ =~= old(out)@ + bool_line(key@, b));
}

fn emit_num_list(out: &mut String, xs: &Vec<u64>, i: usize)
    requires
        i <= xs@.len(),
    ensures
        final(out)@ == old(out)@ + num_list(xs@.skip(i as int)),
    decreases xs@.len() - i,
{
    if i < xs.len() {
        let digits = u64_to_string(xs[i]);
        out.append(digits.as_str());
        if i + 1 < xs.len() {
            out.append(", ");
        }
        emit_num_list(out, xs, i + 1);
        proof {
            let rest = xs@.skip(i as int);
            assert(rest[0] == xs@[i as int]);
            assert(rest.skip(1) =~= xs@.skip(i + 1));
            if i + 1 < xs@.len() {
                assert(final(out)@ =~= old(out)@ + num_list(rest));
            } else {
                assert(xs@.skip(i + 1) =~= Seq::<u64>::empty());
                assert(rest.len() == 1);
                assert(final(out)@ =~= old(out)@ + num_list(rest));
            }
        }
    } else {
        assert(xs@.skip(i as int) =~= Seq::<u64>::empty());
        assert(final(out)@ =~= old(out)@ + num_list(xs@.skip(i as int)));
    }
}

fn emit_groups(out: &mut String, gs: &Vec<PermissionGroup>, i: usize)
    requires
        i <= gs@.len(),
    ensures
        final(out)@ == old(out)@ + groups_toml(gs@.skip(i as int)),
    decreases gs@.len() - i,
{
    if i < gs.len() {
        out.append("[[server_specific.permission_groups]]\n");
        let g = &gs[i];
        emit_str_line(out, "name", g.name.as_str());
        emit_num_line(out, "perm_lvl", g.perm_lvl as u64);
        emit_num_line(out, "max_custom_cmds", g.max_custom_cmds as u64);
        emit_groups(out, gs, i + 1);
        proof {
            let rest = gs@.skip(i as int);
            assert(rest[0] == gs@[i as int]);
            assert(rest.skip(1) =~= gs@.skip(i + 1));
            assert(final(out)@ =~= old(out)@ + groups_toml(rest));
        }
    } else {
        assert(gs@.skip(i as int) =~= Seq::<PermissionGroup>::empty());
        assert(final(out)@ =~= old(out)@ + groups_toml(gs@.skip(i as int)));
    }
}

// ------------------------------------------------------------------
// Parsing.
// ------------------------------------------------------------------

/// A text free of double quotes, so it survives the quoted-string form.
pub open spec fn qfree(s: Seq<char>) -> bool {
    forall|i: int| 0 <= i < s.len() ==> s[i] != '"'
}

pub open spec fn opt_qfree(o: Option<String>) -> bool {
    match o {
        Some(s) => qfree(s@),
        None => true,
    }
}

/// The documented ranges of a configuration: quote-free strings, a
/// non-empty prefix, and at least one permission group.
pub open spec fn cfg_ranges(c: Config) -> bool {
    &&& opt_qfree(c.credentials.bot_token)
    &&& opt_qfree(c.credentials.youtube_api_key)
    &&& opt_qfree(c.credentials.giphy_api_key)
    &&& qfree(c.global.current_status@)
    &&& qfree(c.global.path_database@)
    &&& opt_qfree(c.global.activity)
    &&& qfree(c.server_specific.prefix@)
    &&& qfree(c.server_specific.locale@)
    &&& forall|i: int|
        0 <= i < c.server_specific.permission_groups@.len() ==> qfree(
            #[trigger] c.server_specific.permission_groups@[i].name@,
        )
    &&& config_wf(c)
    &&& c.server_specific.permission_groups@.len() > 0
}

/// Two configurations that agree in every reading: field by field, with
/// strings compared by their characters.
pub open spec fn config_like(a: Config, b: Config) -> bool {
    &&& opt_str_is(a.credentials.bot_token, b.credentials.bot_token)
    &&& opt_str_is(a.credentials.youtube_api_key, b.credentials.youtube_api_key)
    &&& opt_str_is(a.credentials.giphy_api_key, b.credentials.giphy_api_key)
    &&& a.global.current_status@ == b.global.current_status@
    &&& a.global.path_database@ == b.global.path_database@
    &&& (match (a.global.superusers, b.global.superusers) {
        (Some(x), Some(y)) => x@ == y@,
        (None, None) => true,
        _ => false,
    })
    &&& a.global.xp_cooldown == b.global.xp_cooldown
    &&& opt_str_is(a.global.activity, b.global.activity)
    &&& a.global.metrics == b.global.metrics
    &&& a.server_specific.prefix@ == b.server_specific.prefix@
    &&& a.server_specific.locale@ == b.server_specific.locale@
    &&& a.server_specific.permission_groups@.len()
        == b.server_specific.permission_groups@.len()
    &&& forall|i: int|
        0 <= i < a.server_specific.permission_groups@.len() ==> (
        #[trigger] a.server_specific.permission_groups@[i]).name@
            == b.server_specific.permission_groups@[i].name@
            && a.server_specific.permission_groups@[i].perm_lvl
            == b.server_specific.permission_groups@[i].perm_lvl
            && a.server_specific.permission_groups@[i].max_custom_cmds
            == b.server_specific.permission_groups@[i].max_custom_cmds
}

pub open spec fn opt_str_is_cfg(o: Option<String>, t: Option<Seq<char>>) -> bool {
    match (o, t) {
        (Some(s), Some(x)) => s@ == x,
        (None, None) => true,
        _ => false,
    }
}

pub open spec fn opt_str_is(a: Option<String>, b: Option<String>) -> bool {
    match (a, b) {
        (Some(s), Some(x)) => s@ == x@,
        (None, None) => true,
        _ => false,
    }
}

/// Configurations that agree in every reading render identically.
proof fn lemma_toml_like(a: Config, b: Config)
    requires
        config_like(a, b),
    ensures
        spec_config_toml(a) == spec_config_toml(b),
{
    lemma_groups_like(
        a.server_specific.permission_groups@,
        b.server_specific.permission_groups@,
    );
    assert(spec_config_toml(a) =~= spec_config_toml(b));
}

proof fn lemma_groups_like(a: Seq<PermissionGroup>, b: Seq<PermissionGroup>)
    requires
        a.len() == b.len(),
        forall|i: int|
            0 <= i < a.len() ==> (#[trigger] a[i]).name@ == b[i].name@ && a[i].perm_lvl
                == b[i].perm_lvl && a[i].max_custom_cmds == b[i].max_custom_cmds,
    ensures
        groups_toml(a) == groups_toml(b),
    decreases a.len(),
{
    if a.len() > 0 {
        assert forall|i: int| 0 <= i < a.skip(1).len() implies (#[trigger] a.skip(1)[i]).name@
            == b.skip(1)[i].name@ && a.skip(1)[i].perm_lvl == b.skip(1)[i].perm_lvl && a.skip(
            1,
        )[i].max_custom_cmds == b.skip(1)[i].max_custom_cmds by {
            assert(a.skip(1)[i] == a[i + 1]);
            assert(b.skip(1)[i] == b[i + 1]);
        }
        lemma_groups_like(a.skip(1), b.skip(1));
        assert(group_toml(a[0]) =~= group_toml(b[0]));
    }
}

/// A subrange of a matched subrange matches the piece's subrange.
proof fn lemma_slice(v: Seq<char>, a: int, s: Seq<char>, x: int, y: int)
    requires
        0 <= a,
        a + s.len() <= v.len(),
        v.subrange(a, a + s.len()) == s,
        0 <= x <= y <= s.len(),
    ensures
        v.subrange(a + x, a + y) == s.subrange(x, y),
{
    assert(v.subrange(a + x, a + y) =~= s.subrange(x, y));
}

/// Splitting a suffix equality at a piece boundary.
proof fn lemma_prefix_piece(v: Seq<char>, pos: int, piece: Seq<char>, rest: Seq<char>)
    requires
        0 <= pos <= v.len(),
        v.subrange(pos, v.len() as int) == piece + rest,
    ensures
        pos + piece.len() <= v.len(),
        v.subrange(pos, pos + piece.len() as int) == piece,
        v.subrange(pos + piece.len() as int, v.len() as int) == rest,
{
    assert((piece + rest).len() == v.len() - pos);
    assert forall|i: int| 0 <= i < piece.len() implies v[pos + i] == piece[i] by {
        assert(v.subrange(pos, v.len() as int)[i] == v[pos + i]);
        assert((piece + rest)[i] == piece[i]);
    }
    assert(v.subrange(pos, pos + piece.len() as int) =~= piece);
    assert forall|i: int| 0 <= i < rest.len() implies v[pos + piece.len() + i] == rest[i] by {
        assert(v.subrange(pos, v.len() as int)[piece.len() + i] == v[pos + piece.len() + i]);
        assert((piece + rest)[piece.len() + i] == rest[i]);
    }
    assert(v.subrange(pos + piece.len() as int, v.len() as int) =~= rest);
}

fn deser_err(what: &str) -> (r: ConfigError)
    ensures
        r matches ConfigError::Deserialize(_),
{
    ConfigError::Deserialize(String::from_str(what))
}

/// Whether the literal stands at `pos`, and the position after it.
fn expect_lit(v: &Vec<char>, pos: usize, lit: &str) -> (r: Option<usize>)
    requires
        pos <= v@.len(),
    ensures
        match r {
            Some(p) => p == pos + lit@.len() && p <= v@.len() && v@.subrange(pos as int, p as int)
                == lit@,
            None => !(pos + lit@.len() <= v@.len() && v@.subrange(
                pos as int,
                pos + lit@.len(),
            ) == lit@),
        },
{
    let n = lit.unicode_len();
    if v.len() - pos < n {
        return None;
    }
    let mut i: usize = 0;
    while i < n
        invariant
            i <= n,
            n == lit@.len(),
            pos + n <= v@.len() <= usize::MAX,
            forall|j: int| 0 <= j < i ==> v@[pos + j] == lit@[j],
        decreases n - i,
    {
        if v[pos + i] != lit.get_char(i) {
            proof {
                assert(v@.subrange(pos as int, (pos + n) as int) == lit@ ==> v@.subrange(
                    pos as int,
                    (pos + n) as int,
                )[i as int] == lit@[i as int]);
            }
            return None;
        }
        i = i + 1;
    }
    proof {
        assert(v@.subrange(pos as int, (pos + n) as int) =~= lit@);
    }
    Some(pos + n)
}

/// First position at or after `pos` holding a double quote, or the length.
pub open spec fn quote_end(s: Seq<char>, pos: int) -> int
    decreases s.len() - pos,
{
    if pos < 0 || pos >= s.len() {
        s.len() as int
    } else if s[pos] == '"' {
        pos
    } else {
        quote_end(s, pos + 1)
    }
}

/// Where the quote scan stops, from the characters alone.
proof fn lemma_quote_end_at(s: Seq<char>, pos: int, e: int)
    requires
        0 <= pos <= e <= s.len(),
        forall|j: int| pos <= j < e ==> s[j] != '"',
        e < s.len(),
        s[e] == '"',
    ensures
        quote_end(s, pos) == e,
    decreases e - pos,
{
    if pos < e {
        lemma_quote_end_at(s, pos + 1, e);
    }
}

/// Where the digit scan stops, from the characters alone.
proof fn lemma_digit_run_at(s: Seq<char>, pos: int, e: int)
    requires
        0 <= pos <= e <= s.len(),
        forall|j: int| pos <= j < e ==> crate::text::is_dec_digit(s[j]),
        e == s.len() || !crate::text::is_dec_digit(s[e]),
    ensures
        crate::text::digit_run_end(s, pos) == e,
    decreases e - pos,
{
    if pos < e {
        lemma_digit_run_at(s, pos + 1, e);
    }
}

fn scan_to_quote(v: &Vec<char>, pos: usize) -> (r: usize)
    requires
        pos <= v@.len(),
    ensures
        r == quote_end(v@, pos as int),
        pos <= r <= v@.len(),
{
    let mut i = pos;
    while i < v.len() && v[i] != '"'
        invariant
            pos <= i <= v@.len(),
            quote_end(v@, pos as int) == quote_end(v@, i as int),
        decreases v@.len() - i,
    {
        i = i + 1;
    }
    i
}

fn scan_digits(v: &Vec<char>, pos: usize) -> (r: usize)
    requires
        pos <= v@.len(),
    ensures
        r == crate::text::digit_run_end(v@, pos as int),
        pos <= r <= v@.len(),
{
    let mut i = pos;
    while i < v.len() && '0' <= v[i] && v[i] <= '9'
        invariant
            pos <= i <= v@.len(),
            crate::text::digit_run_end(v@, pos as int) == crate::text::digit_run_end(
                v@,
                i as int,
            ),
        decreases v@.len() - i,
    {
        i = i + 1;
    }
    i
}

/// Reads `key = "value"` and the newline; the value runs to the next
/// double quote. On the canonical rendering of any quote-free value, this
/// succeeds with exactly that value.
fn read_str_line(v: &Vec<char>, pos: usize, key: &str) -> (r: Option<(String, usize)>)
    requires
        pos <= v@.len(),
    ensures
        r matches Some((out, p)) ==> pos < p <= v@.len(),
        forall|sv: Seq<char>|
            (qfree(sv) && pos + str_line(key@, sv).len() <= v@.len() && v@.subrange(
                pos as int,
                pos + str_line(key@, sv).len(),
            ) == #[trigger] str_line(key@, sv)) ==> (r matches Some((out, p)) && out@ == sv && p
                == pos + str_line(key@, sv).len()),
{
    let p1 = match expect_lit(v, pos, key) {
        Some(p) => p,
        None => {
            proof {
                assert forall|sv: Seq<char>|
                    qfree(sv) && pos + str_line(key@, sv).len() <= v@.len() && v@.subrange(
                        pos as int,
                        pos + str_line(key@, sv).len(),
                    ) == #[trigger] str_line(key@, sv) implies false by {
                    lemma_str_line_shape(v@, pos as int, key@, sv);
                }
            }
            return None;
        },
    };
    let p2 = match expect_lit(v, p1, " = \"") {
        Some(p) => p,
        None => {
            proof {
                assert forall|sv: Seq<char>|
                    qfree(sv) && pos + str_line(key@, sv).len() <= v@.len() && v@.subrange(
                        pos as int,
                        pos + str_line(key@, sv).len(),
                    ) == #[trigger] str_line(key@, sv) implies false by {
                    lemma_str_line_shape(v@, pos as int, key@, sv);
                }
            }
            return None;
        },
    };
    let qe = scan_to_quote(v, p2);
    if qe >= v.len() {
        proof {
            assert forall|sv: Seq<char>|
                qfree(sv) && pos + str_line(key@, sv).len() <= v@.len() && v@.subrange(
                    pos as int,
                    pos + str_line(key@, sv).len(),
                ) == #[trigger] str_line(key@, sv) implies false by {
                lemma_str_line_shape(v@, pos as int, key@, sv);
            }
        }
        return None;
    }
    let content = crate::text::subchars(v, p2, qe);
    let p3 = match expect_lit(v, qe, "\"\n") {
        Some(p) => p,
        None => {
            proof {
                assert forall|sv: Seq<char>|
                    qfree(sv) && pos + str_line(key@, sv).len() <= v@.len() && v@.subrange(
                        pos as int,
                        pos + str_line(key@, sv).len(),
                    ) == #[trigger] str_line(key@, sv) implies false by {
                    lemma_str_line_shape(v@, pos as int, key@, sv);
                }
            }
            return None;
        },
    };
    proof {
        reveal_strlit("\"\n");
        assert(p3 > qe);
        assert forall|sv: Seq<char>|
            qfree(sv) && pos + str_line(key@, sv).len() <= v@.len() && v@.subrange(
                pos as int,
                pos + str_line(key@, sv).len(),
            ) == #[trigger] str_line(key@, sv) implies content@ == sv && p3 == pos + str_line(
            key@,
            sv,
        ).len() by {
            lemma_str_line_shape(v@, pos as int, key@, sv);
            assert(content@ =~= sv);
        }
    }
    Some((string_from_chars(&content), p3))
}

/// Under the canonical string-line hypothesis: the key and separator stand
/// at the front, the value's characters carry no quote, the closing quote
/// and newline stand right after them, and the quote scan stops exactly at
/// the value's end.
proof fn lemma_str_line_shape(v: Seq<char>, pos: int, key: Seq<char>, sv: Seq<char>)
    requires
        qfree(sv),
        0 <= pos,
        pos + str_line(key, sv).len() <= v.len(),
        v.subrange(pos, pos + str_line(key, sv).len()) == str_line(key, sv),
    ensures
        str_line(key, sv).len() == key.len() + 6 + sv.len(),
        v.subrange(pos, pos + key.len() as int) == key,
        v.subrange(pos + key.len() as int, pos + key.len() as int + 4) == " = \""@,
        quote_end(v, pos + key.len() as int + 4) == pos + key.len() as int + 4 + sv.len(),
        v.subrange(
            pos + key.len() as int + 4,
            pos + key.len() as int + 4 + sv.len(),
        ) == sv,
        v.subrange(
            pos + key.len() as int + 4 + sv.len(),
            pos + key.len() as int + 6 + sv.len(),
        ) == "\"\n"@,
{
    reveal_strlit(" = \"");
    reveal_strlit("\"\n");
    let s = str_line(key, sv);
    let a = key + " = \""@;
    let b = a + sv;
    assert(s == b + "\"\n"@);
    assert(s.len() == key.len() + 6 + sv.len());
    assert forall|i: int| 0 <= i < s.len() implies v[pos + i] == s[i] by {
        assert(v.subrange(pos, pos + s.len() as int)[i] == v[pos + i]);
    }
    assert forall|i: int| 0 <= i < b.len() implies s[i] == b[i] by {
        assert((b + "\"\n"@)[i] == b[i]);
    }
    assert forall|i: int| 0 <= i < a.len() implies b[i] == a[i] by {
        assert((a + sv)[i] == a[i]);
    }
    assert forall|i: int| 0 <= i < sv.len() implies b[a.len() + i] == sv[i] by {
        assert((a + sv)[a.len() + i] == sv[i]);
    }
    assert forall|i: int| 0 <= i < key.len() implies a[i] == key[i] by {
        assert((key + " = \""@)[i] == key[i]);
    }
    assert forall|i: int| 0 <= i < 4 implies a[key.len() + i] == " = \""@[i] by {
        assert((key + " = \""@)[key.len() + i] == " = \""@[i]);
    }
    assert forall|i: int| 0 <= i < 2 implies s[b.len() + i] == "\"\n"@[i] by {
        assert((b + "\"\n"@)[b.len() + i] == "\"\n"@[i]);
    }
    let vstart = pos + key.len() as int + 4;
    assert(v.subrange(pos, pos + key.len() as int) =~= key);
    assert(v.subrange(pos + key.len() as int, pos + key.len() as int + 4) =~= " = \""@);
    assert(v.subrange(vstart, vstart + sv.len()) =~= sv);
    assert(v.subrange(vstart + sv.len(), vstart + sv.len() + 2) =~= "\"\n"@);
    assert forall|j: int| vstart <= j < vstart + sv.len() implies v[j] != '"' by {
        assert(v.subrange(vstart, vstart + sv.len())[j - vstart] == v[j]);
    }
    assert(v[vstart + sv.len()] == '"') by {
        assert(v.subrange(vstart + sv.len(), vstart + sv.len() + 2)[0] == v[vstart + sv.len()]);
        assert("\"\n"@[0] == '"');
    }
    lemma_quote_end_at(v, vstart, vstart + sv.len());
}

/// Reads `key = n` and the newline. On the canonical rendering of any
/// value, this succeeds with exactly that value.
fn read_num_line(v: &Vec<char>, pos: usize, key: &str) -> (r: Option<(u64, usize)>)
    requires
        pos <= v@.len(),
    ensures
        r matches Some((n, p)) ==> pos < p <= v@.len(),
        forall|n: u64|
            (pos + num_line(key@, n as nat).len() <= v@.len() && v@.subrange(
                pos as int,
                pos + num_line(key@, n as nat).len(),
            ) == #[trigger] num_line(key@, n as nat)) ==> (r matches Some((m, p)) && m == n && p
                == pos + num_line(key@, n as nat).len()),
{
    let p1 = match expect_lit(v, pos, key) {
        Some(p) => p,
        None => {
            proof {
                assert forall|n: u64|
                    pos + num_line(key@, n as nat).len() <= v@.len() && v@.subrange(
                        pos as int,
                        pos + num_line(key@, n as nat).len(),
                    ) == #[trigger] num_line(key@, n as nat) implies false by {
                    reveal_strlit(" = ");
                    reveal_strlit("\n");
                    lemma_slice(v@, pos as int, num_line(key@, n as nat), 0, key@.len() as int);
                    assert(num_line(key@, n as nat).subrange(0, key@.len() as int) =~= key@);
                }
            }
            return None;
        },
    };
    let p2 = match expect_lit(v, p1, " = ") {
        Some(p) => p,
        None => {
            proof {
                assert forall|n: u64|
                    pos + num_line(key@, n as nat).len() <= v@.len() && v@.subrange(
                        pos as int,
                        pos + num_line(key@, n as nat).len(),
                    ) == #[trigger] num_line(key@, n as nat) implies false by {
                    reveal_strlit(" = ");
                    reveal_strlit("\n");
                    lemma_slice(
                        v@,
                        pos as int,
                        num_line(key@, n as nat),
                        key@.len() as int,
                        key@.len() as int + 3,
                    );
                    assert(num_line(key@, n as nat).subrange(key@.len() as int, key@.len() as int + 3)
                        =~= " = "@);
                }
            }
            return None;
        },
    };
    let de = scan_digits(v, p2);
    let value = match crate::text::parse_dec_u64(v, p2, de) {
        Some(x) => x,
        None => {
            proof {
                assert forall|n: u64|
                    pos + num_line(key@, n as nat).len() <= v@.len() && v@.subrange(
                        pos as int,
                        pos + num_line(key@, n as nat).len(),
                    ) == #[trigger] num_line(key@, n as nat) implies false by {
                    reveal_strlit(" = ");
                    reveal_strlit("\n");
                    lemma_num_line_digits(v@, pos as int, key@, n);
                }
            }
            return None;
        },
    };
    let p3 = match expect_lit(v, de, "\n") {
        Some(p) => p,
        None => {
            proof {
                assert forall|n: u64|
                    pos + num_line(key@, n as nat).len() <= v@.len() && v@.subrange(
                        pos as int,
                        pos + num_line(key@, n as nat).len(),
                    ) == #[trigger] num_line(key@, n as nat) implies false by {
                    reveal_strlit(" = ");
                    reveal_strlit("\n");
                    lemma_num_line_digits(v@, pos as int, key@, n);
                }
            }
            return None;
        },
    };
    proof {
        reveal_strlit("\n");
        assert(p3 > de);
        assert forall|n: u64|
            pos + num_line(key@, n as nat).len() <= v@.len() && v@.subrange(
                pos as int,
                pos + num_line(key@, n as nat).len(),
            ) == #[trigger] num_line(key@, n as nat) implies value == n && p3 == pos + num_line(
            key@,
            n as nat,
        ).len() by {
            lemma_num_line_digits(v@, pos as int, key@, n);
            crate::text::lemma_digits_val_dec(n as nat);
        }
    }
    Some((value, p3))
}

/// Under the canonical number-line hypothesis, the digit scan after the
/// separator stops exactly at the digits' end, and they read back as `n`.
proof fn lemma_num_line_digits(v: Seq<char>, pos: int, key: Seq<char>, n: u64)
    requires
        0 <= pos,
        pos + num_line(key, n as nat).len() <= v.len(),
        v.subrange(pos, pos + num_line(key, n as nat).len()) == num_line(key, n as nat),
    ensures
        num_line(key, n as nat).len() == key.len() + 4 + dec_digits(n as nat).len(),
        v.subrange(pos, pos + key.len() as int) == key,
        v.subrange(pos + key.len() as int, pos + key.len() as int + 3) == " = "@,
        crate::text::digit_run_end(v, pos + key.len() as int + 3) == pos + key.len() as int + 3
            + dec_digits(n as nat).len(),
        crate::text::spec_parse_nat(
            v.subrange(
                pos + key.len() as int + 3,
                pos + key.len() as int + 3 + dec_digits(n as nat).len(),
            ),
        ) == Some(n as nat),
        v.subrange(
            pos + key.len() as int + 3 + dec_digits(n as nat).len(),
            pos + key.len() as int + 4 + dec_digits(n as nat).len(),
        ) == "\n"@,
{
    reveal_strlit(" = ");
    reveal_strlit("\n");
    crate::text::lemma_digits_val_dec(n as nat);
    let d = dec_digits(n as nat);
    let s = num_line(key, n as nat);
    let a = key + " = "@;
    let b = a + d;
    assert(s == b + "\n"@);
    assert(s.len() == key.len() + 4 + d.len());
    assert forall|i: int| 0 <= i < s.len() implies v[pos + i] == s[i] by {
        assert(v.subrange(pos, pos + s.len() as int)[i] == v[pos + i]);
    }
    assert forall|i: int| 0 <= i < b.len() implies s[i] == b[i] by {
        assert((b + "\n"@)[i] == b[i]);
    }
    assert forall|i: int| 0 <= i < a.len() implies b[i] == a[i] by {
        assert((a + d)[i] == a[i]);
    }
    assert forall|i: int| 0 <= i < d.len() implies b[a.len() + i] == d[i] by {
        assert((a + d)[a.len() + i] == d[i]);
    }
    assert forall|i: int| 0 <= i < key.len() implies a[i] == key[i] by {
        assert((key + " = "@)[i] == key[i]);
    }
    assert forall|i: int| 0 <= i < 3 implies a[key.len() + i] == " = "@[i] by {
        assert((key + " = "@)[key.len() + i] == " = "@[i]);
    }
    assert(s[b.len() as int] == "\n"@[0]) by {
        assert((b + "\n"@)[b.len() as int] == "\n"@[0]);
    }
    let ds = pos + key.len() as int + 3;
    assert(v.subrange(pos, pos + key.len() as int) =~= key);
    assert(v.subrange(pos + key.len() as int, pos + key.len() as int + 3) =~= " = "@);
    assert(v.subrange(ds, ds + d.len()) =~= d);
    assert(v.subrange(ds + d.len(), ds + d.len() + 1) =~= "\n"@);
    assert forall|j: int| ds <= j < ds + d.len() implies crate::text::is_dec_digit(v[j]) by {
        assert(v.subrange(ds, ds + d.len())[j - ds] == v[j]);
    }
    assert(v[ds + d.len()] == '\n');
    assert(!crate::text::is_dec_digit('\n'));
    lemma_digit_run_at(v, ds, ds + d.len());
}

/// The view of an optional string.
pub open spec fn opt_view(o: Option<String>) -> Option<Seq<char>> {
    match o {
        Some(s) => Some(s@),
        None => None,
    }
}

/// The optional string line, over the value's characters.
pub open spec fn opt_str_line_v(key: Seq<char>, v: Option<Seq<char>>) -> Seq<char> {
    match v {
        None => Seq::empty(),
        Some(sv) => str_line(key, sv),
    }
}

/// A key cannot stand at `pos` when the text there begins with a
/// different character.
proof fn lemma_opt_absent(v: Seq<char>, pos: int, key: Seq<char>, next: Seq<char>, hc: char)
    requires
        0 <= pos <= v.len(),
        v.subrange(pos, v.len() as int) == next,
        key.len() > 0,
        next.len() > 0,
        next[0] == hc,
        hc != key[0],
    ensures
        !(pos + key.len() <= v.len() && v.subrange(pos, pos + key.len() as int) == key),
{
    if pos + key.len() <= v.len() && v.subrange(pos, pos + key.len() as int) == key {
        assert(v.subrange(pos, pos + key.len() as int)[0] == v[pos]);
        assert(v.subrange(pos, v.len() as int)[0] == v[pos]);
        assert(false);
    }
}

/// Reads one optional `key = "value"` line: the probe decides presence.
fn read_opt_str(
    v: &Vec<char>,
    pos: usize,
    key: &str,
    Ghost(hyp): Ghost<bool>,
    Ghost(gfield): Ghost<Option<Seq<char>>>,
    Ghost(gnext): Ghost<Seq<char>>,
) -> (r: Result<(Option<String>, usize), ConfigError>)
    requires
        pos <= v@.len(),
        hyp ==> (match gfield {
            Some(sv) => qfree(sv),
            None => true,
        }),
        hyp ==> v@.subrange(pos as int, v@.len() as int) == opt_str_line_v(key@, gfield)
            + gnext,
        hyp && gfield is None ==> !(pos + key@.len() <= v@.len() && v@.subrange(
            pos as int,
            pos + key@.len(),
        ) == key@),
    ensures
        r matches Err(e) ==> (e matches ConfigError::Deserialize(_)) && !hyp,
        r matches Ok((f, p)) ==> pos <= p <= v@.len(),
        hyp ==> (r matches Ok((f, p)) && opt_str_is_cfg(f, gfield) && v@.subrange(
            p as int,
            v@.len() as int,
        ) == gnext),
{
    proof {
        if hyp {
            match gfield {
                Some(sv) => {
                    lemma_prefix_piece(v@, pos as int, str_line(key@, sv), gnext);
                    lemma_str_line_shape(v@, pos as int, key@, sv);
                },
                None => {
                },
            }
        }
    }
    match expect_lit(v, pos, key) {
        None => {
            proof {
                if hyp {
                    match gfield {
                        Some(sv) => {
                            assert(false);
                        },
                        None => {
                        },
                    }
                    assert(v@.subrange(pos as int, v@.len() as int) =~= gnext);
                }
            }
            Ok((None, pos))
        },
        Some(_) => {
            match read_str_line(v, pos, key) {
                Some((s, p)) => {
                    proof {
                        if hyp {
                            match gfield {
                                Some(sv) => {
                                    assert(s@ == sv && p as int == pos + str_line(
                                        key@,
                                        sv,
                                    ).len());
                                },
                                None => {
                                    assert(false);
                                },
                            }
                        }
                    }
                    Ok((Some(s), p))
                },
                None => {
                    proof {
                        if hyp {
                            assert(false);
                        }
                    }
                    Err(deser_err("malformed string line"))
                },
            }
        },
    }
}

/// Reads one required `key = "value"` line.
fn read_req_str(
    v: &Vec<char>,
    pos: usize,
    key: &str,
    Ghost(hyp): Ghost<bool>,
    Ghost(gsv): Ghost<Seq<char>>,
    Ghost(gnext): Ghost<Seq<char>>,
) -> (r: Result<(String, usize), ConfigError>)
    requires
        pos <= v@.len(),
        hyp ==> qfree(gsv) && v@.subrange(pos as int, v@.len() as int) == str_line(key@, gsv)
            + gnext,
    ensures
        r matches Err(e) ==> (e matches ConfigError::Deserialize(_)) && !hyp,
        r matches Ok((s, p)) ==> pos < p <= v@.len(),
        hyp ==> (r matches Ok((s, p)) && s@ == gsv && v@.subrange(p as int, v@.len() as int)
            == gnext),
{
    proof {
        if hyp {
            lemma_prefix_piece(v@, pos as int, str_line(key@, gsv), gnext);
        }
    }
    match read_str_line(v, pos, key) {
        Some((s, p)) => {
            proof {
                if hyp {
                    assert(s@ == gsv && p as int == pos + str_line(key@, gsv).len());
                }
            }
            Ok((s, p))
        },
        None => {
            proof {
                if hyp {
                    assert(false);
                }
            }
            Err(deser_err("malformed string line"))
        },
    }
}

/// Reads one required `key = n` line whose value must fit `u32`.
fn read_req_u32(
    v: &Vec<char>,
    pos: usize,
    key: &str,
    Ghost(hyp): Ghost<bool>,
    Ghost(gval): Ghost<u32>,
    Ghost(gnext): Ghost<Seq<char>>,
) -> (r: Result<(u32, usize), ConfigError>)
    requires
        pos <= v@.len(),
        hyp ==> v@.subrange(pos as int, v@.len() as int) == num_line(key@, gval as nat) + gnext,
    ensures
        r matches Err(e) ==> (e matches ConfigError::Deserialize(_)) && !hyp,
        r matches Ok((x, p)) ==> pos < p <= v@.len(),
        hyp ==> (r matches Ok((x, p)) && x == gval && v@.subrange(p as int, v@.len() as int)
            == gnext),
{
    proof {
        if hyp {
            lemma_prefix_piece(v@, pos as int, num_line(key@, gval as nat), gnext);
        }
    }
    match read_num_line(v, pos, key) {
        Some((x, p)) => {
            proof {
                if hyp {
                    assert(x == gval as u64 && p as int == pos + num_line(
                        key@,
                        gval as nat,
                    ).len());
                }
            }
            if x > u32::MAX as u64 {
                proof {
                    if hyp {
                        assert(false);
                    }
                }
                return Err(deser_err("integer out of range"));
            }
            Ok((x as u32, p))
        },
        None => {
            proof {
                if hyp {
                    assert(false);
                }
            }
            Err(deser_err("malformed integer line"))
        },
    }
}

/// Reads one `key = true` or `key = false` line.
fn read_bool_line(
    v: &Vec<char>,
    pos: usize,
    key: &str,
    Ghost(hyp): Ghost<bool>,
    Ghost(gb): Ghost<bool>,
    Ghost(gnext): Ghost<Seq<char>>,
) -> (r: Result<(bool, usize), ConfigError>)
    requires
        pos <= v@.len(),
        hyp ==> v@.subrange(pos as int, v@.len() as int) == bool_line(key@, gb) + gnext,
    ensures
        r matches Err(e) ==> (e matches ConfigError::Deserialize(_)) && !hyp,
        r matches Ok((b, p)) ==> pos <= p <= v@.len(),
        hyp ==> (r matches Ok((b, p)) && b == gb && v@.subrange(p as int, v@.len() as int)
            == gnext),
{
    let ghost bl: Seq<char> = bool_line(key@, gb);
    proof {
        reveal_strlit(" = ");
        reveal_strlit("true\n");
        reveal_strlit("false\n");
        reveal_strlit("true");
        reveal_strlit("false");
        reveal_strlit("\n");
        if hyp {
            lemma_prefix_piece(v@, pos as int, bl, gnext);
            let tb: Seq<char> = if gb {
                seq!['t', 'r', 'u', 'e', '\n']
            } else {
                seq!['f', 'a', 'l', 's', 'e', '\n']
            };
            let a = key@ + " = "@;
            if gb {
                assert("true"@ + "\n"@ =~= tb);
                assert(bl =~= a + tb);
            } else {
                assert("false"@ + "\n"@ =~= tb);
                assert(bl =~= a + tb);
            }
            assert forall|i: int| 0 <= i < bl.len() implies v@[pos + i] == bl[i] by {
                assert(v@.subrange(pos as int, pos + bl.len() as int)[i] == v@[pos + i]);
            }
            assert forall|i: int| 0 <= i < a.len() implies bl[i] == a[i] by {
                assert((a + tb)[i] == a[i]);
            }
            assert forall|i: int| 0 <= i < key@.len() implies a[i] == key@[i] by {
                assert((key@ + " = "@)[i] == key@[i]);
            }
            assert forall|i: int| 0 <= i < 3 implies a[key@.len() + i] == " = "@[i] by {
                assert((key@ + " = "@)[key@.len() + i] == " = "@[i]);
            }
            assert forall|i: int| 0 <= i < tb.len() implies bl[a.len() + i] == tb[i] by {
                assert((a + tb)[a.len() + i] == tb[i]);
            }
            assert(v@.subrange(pos as int, pos + key@.len() as int) =~= key@);
            assert(v@.subrange(pos + key@.len() as int, pos + key@.len() as int + 3) =~= " = "@);
            if gb {
                assert(v@.subrange(pos + key@.len() as int + 3, pos + key@.len() as int + 8)
                    =~= "true\n"@);
            } else {
                assert(v@.subrange(pos + key@.len() as int + 3, pos + key@.len() as int + 9)
                    =~= "false\n"@);
            }
        }
    }
    let p1 = match expect_lit(v, pos, key) {
        Some(p) => p,
        None => {
            proof {
                if hyp {
                    assert(false);
                }
            }
            return Err(deser_err("malformed boolean line"));
        },
    };
    let p2 = match expect_lit(v, p1, " = ") {
        Some(p) => p,
        None => {
            proof {
                if hyp {
                    assert(false);
                }
            }
            return Err(deser_err("malformed boolean line"));
        },
    };
    match expect_lit(v, p2, "true\n") {
        Some(p) => {
            proof {
                if hyp {
                    if !gb {
                        reveal_strlit("true\n");
                        reveal_strlit("false\n");
                        assert(v@.subrange(p2 as int, p2 + 5)[0] == v@[p2 as int]);
                        assert(v@.subrange(p2 as int, p2 + 6)[0] == v@[p2 as int]);
                        assert(false);
                    }
                    assert(v@.subrange(p as int, v@.len() as int) =~= gnext);
                }
            }
            Ok((true, p))
        },
        None => {
            match expect_lit(v, p2, "false\n") {
                Some(p) => {
                    proof {
                        if hyp {
                            if gb {
                                assert(false);
                            }
                            assert(v@.subrange(p as int, v@.len() as int) =~= gnext);
                        }
                    }
                    Ok((false, p))
                },
                None => {
                    proof {
                        if hyp {
                            assert(false);
                        }
                    }
                    Err(deser_err("malformed boolean line"))
                },
            }
        },
    }
}

/// Reads the whole `superusers = [ ... ]` line.
fn read_su_line(
    v: &Vec<char>,
    pos: usize,
    Ghost(hyp): Ghost<bool>,
    Ghost(gxs): Ghost<Seq<u64>>,
    Ghost(gnext): Ghost<Seq<char>>,
) -> (r: Result<(Vec<u64>, usize), ConfigError>)
    requires
        pos <= v@.len(),
        hyp ==> v@.subrange(pos as int, v@.len() as int) == ("superusers"@ + " = ["@ + num_list(
            gxs,
        ) + "]\n"@) + gnext,
    ensures
        r matches Err(e) ==> (e matches ConfigError::Deserialize(_)) && !hyp,
        r matches Ok((xs, p)) ==> pos <= p <= v@.len(),
        hyp ==> (r matches Ok((xs, p)) && xs@ == gxs && v@.subrange(p as int, v@.len() as int)
            == gnext),
{
    let n = v.len();
    let ghost whole: Seq<char> = "superusers"@ + " = ["@ + num_list(gxs) + "]\n"@;
    proof {
        reveal_strlit(" = [");
        reveal_strlit("]\n");
        reveal_strlit(", ");
        if hyp {
            lemma_prefix_piece(v@, pos as int, whole, gnext);
            let a = "superusers"@ + " = ["@;
            let b = a + num_list(gxs);
            assert(whole == b + "]\n"@);
            assert forall|i: int| 0 <= i < whole.len() implies v@[pos + i] == whole[i] by {
                assert(v@.subrange(pos as int, pos + whole.len() as int)[i] == v@[pos + i]);
            }
            assert forall|i: int| 0 <= i < b.len() implies whole[i] == b[i] by {
                assert((b + "]\n"@)[i] == b[i]);
            }
            assert forall|i: int| 0 <= i < a.len() implies b[i] == a[i] by {
                assert((a + num_list(gxs))[i] == a[i]);
            }
            assert forall|i: int| 0 <= i < "superusers"@.len() implies a[i]
                == "superusers"@[i] by {
                assert(("superusers"@ + " = ["@)[i] == "superusers"@[i]);
            }
            assert forall|i: int| 0 <= i < 4 implies a["superusers"@.len() + i]
                == " = ["@[i] by {
                assert(("superusers"@ + " = ["@)["superusers"@.len() + i] == " = ["@[i]);
            }
            assert forall|i: int| 0 <= i < num_list(gxs).len() implies b[a.len() + i]
                == num_list(gxs)[i] by {
                assert((a + num_list(gxs))[a.len() + i] == num_list(gxs)[i]);
            }
            assert forall|i: int| 0 <= i < 2 implies whole[b.len() + i] == "]\n"@[i] by {
                assert((b + "]\n"@)[b.len() + i] == "]\n"@[i]);
            }
            assert(v@.subrange(pos as int, pos + "superusers"@.len() as int) =~= "superusers"@);
            assert(v@.subrange(
                pos + "superusers"@.len() as int,
                pos + "superusers"@.len() as int + 4,
            ) =~= " = ["@);
            assert(v@.subrange(pos + a.len(), v@.len() as int) =~= num_list(gxs) + ("]\n"@
                + gnext));
        }
    }
    let p1 = match expect_lit(v, pos, "superusers") {
        Some(p) => p,
        None => {
            proof {
                if hyp {
                    assert(false);
                }
            }
            return Err(deser_err("malformed superusers line"));
        },
    };
    let p2 = match expect_lit(v, p1, " = [") {
        Some(p) => p,
        None => {
            proof {
                if hyp {
                    assert(false);
                }
            }
            return Err(deser_err("malformed superusers line"));
        },
    };
    let mut items: Vec<u64> = Vec::new();
    let mut cur: usize = p2;
    proof {
        if hyp {
            assert(gxs.skip(0) =~= gxs);
        }
    }
    loop
        invariant
            pos <= cur <= n,
            n == v@.len(),
            hyp ==> ({
                &&& items@.len() <= gxs.len()
                &&& items@ == gxs.subrange(0, items@.len() as int)
                &&& v@.subrange(cur as int, n as int) == num_list(gxs.skip(items@.len() as int))
                    + ("]\n"@ + gnext)
            }),
        decreases n - cur,
    {
        let ghost k = items@.len() as int;
        if cur >= n {
            proof {
                reveal_strlit("]\n");
                if hyp {
                    assert((num_list(gxs.skip(k)) + ("]\n"@ + gnext)).len() >= 2);
                    assert(v@.subrange(cur as int, n as int).len() == n - cur);
                    assert(false);
                }
            }
            return Err(deser_err("unterminated superusers line"));
        }
        if v[cur] == ']' {
            proof {
                reveal_strlit("]\n");
                if hyp {
                    if k < gxs.len() {
                        lemma_num_head(gxs.skip(k));
                        assert(v@.subrange(cur as int, n as int)[0] == v@[cur as int]);
                        assert((num_list(gxs.skip(k)) + ("]\n"@ + gnext))[0] == num_list(
                            gxs.skip(k),
                        )[0]);
                        assert(v@[cur as int] == num_list(gxs.skip(k))[0]);
                        assert(crate::text::is_dec_digit(']') == false);
                        assert(false);
                    }
                    assert(gxs.skip(k) =~= Seq::<u64>::empty());
                    assert(num_list(gxs.skip(k)) + ("]\n"@ + gnext) =~= "]\n"@ + gnext);
                    lemma_prefix_piece(v@, cur as int, "]\n"@, gnext);
                    assert(items@ =~= gxs);
                }
            }
            let pe = match expect_lit(v, cur, "]\n") {
                Some(p) => p,
                None => {
                    proof {
                        if hyp {
                            assert(false);
                        }
                    }
                    return Err(deser_err("unterminated superusers line"));
                },
            };
            proof {
                if hyp {
                    assert(v@.subrange(pe as int, n as int) =~= gnext);
                }
            }
            return Ok((items, pe));
        }
        proof {
            reveal_strlit("]\n");
            reveal_strlit(", ");
            if hyp {
                if k == gxs.len() {
                    assert(gxs.skip(k) =~= Seq::<u64>::empty());
                    assert(num_list(gxs.skip(k)) + ("]\n"@ + gnext) =~= "]\n"@ + gnext);
                    assert(v@.subrange(cur as int, n as int)[0] == v@[cur as int]);
                    assert(("]\n"@ + gnext)[0] == "]\n"@[0]);
                    assert(false);
                }
                assert(("]\n"@ + gnext).len() >= 2);
                assert(("]\n"@ + gnext)[0] == "]\n"@[0]);
                lemma_num_seg(v@, cur as int, gxs.skip(k), "]\n"@ + gnext);
            }
        }
        let de = scan_digits(v, cur);
        let x = match crate::text::parse_dec_u64(v, cur, de) {
            Some(x) => x,
            None => {
                proof {
                    if hyp {
                        assert(false);
                    }
                }
                return Err(deser_err("bad superusers item"));
            },
        };
        items.push(x);
        proof {
            if hyp {
                assert(items@ =~= gxs.subrange(0, k + 1));
            }
        }
        if de >= n {
            proof {
                if hyp {
                    assert(false);
                }
            }
            return Err(deser_err("unterminated superusers line"));
        }
        if v[de] == ']' {
            proof {
                reveal_strlit("]\n");
                reveal_strlit(", ");
                if hyp {
                    assert(gxs.skip(k).skip(1) =~= gxs.skip(k + 1));
                    if k + 1 < gxs.len() {
                        assert(gxs.skip(k).len() > 1);
                        assert(de as int == cur + dec_digits(gxs.skip(k)[0] as nat).len());
                        assert(v@[de as int] == ',');
                        assert(false);
                    }
                    assert(gxs.skip(k).len() == 1);
                    assert(de as int == cur + dec_digits(gxs.skip(k)[0] as nat).len());
                    assert(gxs.skip(k + 1) =~= Seq::<u64>::empty());
                    assert(num_list(gxs.skip(k + 1)) + ("]\n"@ + gnext) =~= "]\n"@ + gnext);
                    assert(v@.subrange(de as int, v@.len() as int) == "]\n"@ + gnext);
                }
            }
            cur = de;
        } else {
            let pc = match expect_lit(v, de, ", ") {
                Some(p) => p,
                None => {
                    proof {
                        reveal_strlit(", ");
                        reveal_strlit("]\n");
                        if hyp {
                            assert(gxs.skip(k).skip(1) =~= gxs.skip(k + 1));
                            if k + 1 == gxs.len() {
                                assert(gxs.skip(k).len() == 1);
                                assert(de as int == cur + dec_digits(
                                    gxs.skip(k)[0] as nat,
                                ).len());
                                assert(v@[de as int] == ']');
                                assert(false);
                            } else {
                                assert(gxs.skip(k).len() > 1);
                                assert(de as int == cur + dec_digits(
                                    gxs.skip(k)[0] as nat,
                                ).len());
                                lemma_prefix_piece(v@, de as int, ", "@, num_list(
                                    gxs.skip(k + 1),
                                ) + ("]\n"@ + gnext));
                                assert(false);
                            }
                        }
                    }
                    return Err(deser_err("bad superusers separator"));
                },
            };
            proof {
                reveal_strlit(", ");
                reveal_strlit("]\n");
                if hyp {
                    assert(gxs.skip(k).skip(1) =~= gxs.skip(k + 1));
                    if k + 1 == gxs.len() {
                        assert(gxs.skip(k).len() == 1);
                        assert(de as int == cur + dec_digits(gxs.skip(k)[0] as nat).len());
                        assert(v@[de as int] == ']');
                        assert(v@.subrange(de as int, de + 2)[0] == v@[de as int]);
                        assert(v@[de as int] == ',');
                        assert(false);
                    }
                    assert(gxs.skip(k).len() > 1);
                    assert(de as int == cur + dec_digits(gxs.skip(k)[0] as nat).len());
                    assert(v@[de as int] == ',');
                    assert(v@.subrange(de as int, v@.len() as int) == ", "@ + (num_list(
                        gxs.skip(k + 1),
                    ) + ("]\n"@ + gnext)));
                    lemma_prefix_piece(v@, de as int, ", "@, num_list(gxs.skip(k + 1)) + (
                    "]\n"@ + gnext));
                }
            }
            if pc <= cur {
                proof {
                    if hyp {
                        assert(false);
                    }
                }
                return Err(deser_err("bad superusers separator"));
            }
            cur = pc;
        }
    }
}

/// A non-empty rendered list begins with a digit.
proof fn lemma_num_head(xs: Seq<u64>)
    requires
        xs.len() > 0,
    ensures
        num_list(xs).len() > 0,
        crate::text::is_dec_digit(num_list(xs)[0]),
        num_list(xs)[0] != ']',
{
    crate::text::lemma_digits_val_dec(xs[0] as nat);
    let d = dec_digits(xs[0] as nat);
    if xs.len() == 1 {
        assert(num_list(xs) == d);
    } else {
        assert(num_list(xs) == d + ", "@ + num_list(xs.skip(1)));
        assert(num_list(xs)[0] == d[0]);
    }
}

/// Under the canonical list hypothesis, the digit scan reads exactly the
/// first element and the right continuation follows.
proof fn lemma_num_seg(v: Seq<char>, cur: int, xs: Seq<u64>, tail: Seq<char>)
    requires
        xs.len() > 0,
        0 <= cur,
        cur + (num_list(xs) + tail).len() <= v.len(),
        v.subrange(cur, v.len() as int) == num_list(xs) + tail,
        tail.len() >= 2,
        tail[0] == ']',
    ensures
        crate::text::digit_run_end(v, cur) == cur + dec_digits(xs[0] as nat).len(),
        crate::text::spec_parse_nat(
            v.subrange(cur, cur + dec_digits(xs[0] as nat).len()),
        ) == Some(xs[0] as nat),
        xs.len() == 1 ==> v.subrange(
            cur + dec_digits(xs[0] as nat).len(),
            v.len() as int,
        ) == tail,
        xs.len() > 1 ==> v.subrange(cur + dec_digits(xs[0] as nat).len(), v.len() as int)
            == ", "@ + (num_list(xs.skip(1)) + tail),
        xs.len() > 1 ==> v[cur + dec_digits(xs[0] as nat).len()] == ',',
        xs.len() == 1 ==> v[cur + dec_digits(xs[0] as nat).len()] == ']',
{
    crate::text::lemma_digits_val_dec(xs[0] as nat);
    let d = dec_digits(xs[0] as nat);
    let s = num_list(xs) + tail;
    assert(v.subrange(cur, v.len() as int) == s);
    if xs.len() == 1 {
        assert(num_list(xs) == d);
        assert(s =~= d + tail);
        assert forall|i: int| 0 <= i < s.len() implies v[cur + i] == s[i] by {
            assert(v.subrange(cur, v.len() as int)[i] == v[cur + i]);
        }
        assert forall|i: int| 0 <= i < d.len() implies s[i] == d[i] by {
            assert((d + tail)[i] == d[i]);
        }
        assert forall|i: int| 0 <= i < tail.len() implies s[d.len() + i] == tail[i] by {
            assert((d + tail)[d.len() + i] == tail[i]);
        }
        assert forall|j: int| cur <= j < cur + d.len() implies crate::text::is_dec_digit(
            v[j],
        ) by {
            assert(v[j] == d[j - cur]);
        }
        assert(v[cur + d.len()] == tail[0]);
        reveal_strlit("]\n");
        assert(!crate::text::is_dec_digit(']'));
        lemma_digit_run_at(v, cur, cur + d.len());
        assert(v.subrange(cur + d.len(), v.len() as int) =~= tail);
    } else {
        assert(num_list(xs) == d + ", "@ + num_list(xs.skip(1)));
        let t2 = ", "@ + (num_list(xs.skip(1)) + tail);
        assert(s =~= d + t2);
        assert forall|i: int| 0 <= i < s.len() implies v[cur + i] == s[i] by {
            assert(v.subrange(cur, v.len() as int)[i] == v[cur + i]);
        }
        assert forall|i: int| 0 <= i < d.len() implies s[i] == d[i] by {
            assert((d + t2)[i] == d[i]);
        }
        assert forall|i: int| 0 <= i < t2.len() implies s[d.len() + i] == t2[i] by {
            assert((d + t2)[d.len() + i] == t2[i]);
        }
        assert forall|j: int| cur <= j < cur + d.len() implies crate::text::is_dec_digit(
            v[j],
        ) by {
            assert(v[j] == d[j - cur]);
        }
        assert(v[cur + d.len()] == t2[0]);
        reveal_strlit(", ");
        assert(t2[0] == (", "@ + (num_list(xs.skip(1)) + tail))[0]);
        assert(t2[0] == ',');
        assert(!crate::text::is_dec_digit(','));
        lemma_digit_run_at(v, cur, cur + d.len());
        assert(v.subrange(cur + d.len(), v.len() as int) =~= t2);
    }
    assert(v.subrange(cur, cur + d.len()) =~= d);
}

/// Reads the permission-group tables to the end of the text.
#[verifier::rlimit(100)]
#[verifier::spinoff_prover]
fn read_groups(
    v: &Vec<char>,
    pos: usize,
    Ghost(hyp): Ghost<bool>,
    Ghost(gseq): Ghost<Seq<PermissionGroup>>,
) -> (r: Result<Vec<PermissionGroup>, ConfigError>)
    requires
        pos <= v@.len(),
        hyp ==> v@.subrange(pos as int, v@.len() as int) == groups_toml(gseq),
        hyp ==> forall|i: int| 0 <= i < gseq.len() ==> qfree(#[trigger] gseq[i].name@),
    ensures
        r matches Err(e) ==> (e matches ConfigError::Deserialize(_)) && !hyp,
        hyp ==> (r matches Ok(gs) && gs@.len() == gseq.len() && (forall|i: int|
            0 <= i < gs@.len() ==> (#[trigger] gs@[i]).name@ == gseq[i].name@ && gs@[i].perm_lvl
                == gseq[i].perm_lvl && gs@[i].max_custom_cmds == gseq[i].max_custom_cmds)),
{
    let n = v.len();
    let mut groups: Vec<PermissionGroup> = Vec::new();
    let mut gp: usize = pos;
    proof {
        if hyp {
            assert(gseq.skip(0) =~= gseq);
        }
    }
    loop
        invariant
            gp <= n,
            n == v@.len(),
            hyp ==> ({
                &&& groups@.len() <= gseq.len()
                &&& (forall|i: int|
                    0 <= i < groups@.len() ==> (#[trigger] groups@[i]).name@ == gseq[i].name@
                        && groups@[i].perm_lvl == gseq[i].perm_lvl
                        && groups@[i].max_custom_cmds == gseq[i].max_custom_cmds)
                &&& v@.subrange(gp as int, n as int) == groups_toml(
                    gseq.skip(groups@.len() as int),
                )
                &&& (forall|i: int| 0 <= i < gseq.len() ==> qfree(#[trigger] gseq[i].name@))
            }),
        ensures
            gp >= n,
        decreases n - gp,
    {
        if gp >= n {
            break ;
        }
        let ghost k = groups@.len() as int;
        let ghost ga: Seq<char> = num_line("perm_lvl"@, gseq[k].perm_lvl as nat) + (num_line(
            "max_custom_cmds"@,
            gseq[k].max_custom_cmds as nat,
        ) + groups_toml(gseq.skip(k + 1)));
        let ghost gb: Seq<char> = num_line(
            "max_custom_cmds"@,
            gseq[k].max_custom_cmds as nat,
        ) + groups_toml(gseq.skip(k + 1));
        let ghost gc: Seq<char> = groups_toml(gseq.skip(k + 1));
        proof {
            if hyp {
                if k == gseq.len() as int {
                    assert(gseq.skip(k) =~= Seq::<PermissionGroup>::empty());
                    assert(false);
                }
                assert(gseq.skip(k)[0] == gseq[k]);
                assert(gseq.skip(k).skip(1) =~= gseq.skip(k + 1));
                assert(groups_toml(gseq.skip(k))
                    =~= "[[server_specific.permission_groups]]\n"@ + (str_line(
                    "name"@,
                    gseq[k].name@,
                ) + ga));
                lemma_prefix_piece(
                    v@,
                    gp as int,
                    "[[server_specific.permission_groups]]\n"@,
                    str_line("name"@, gseq[k].name@) + ga,
                );
            }
        }
        let hp = match expect_lit(v, gp, "[[server_specific.permission_groups]]\n") {
            Some(p) => p,
            None => {
                proof {
                    if hyp {
                        assert(false);
                    }
                }
                return Err(deser_err("expected a permission group table"));
            },
        };
        let (gname, q1) = read_req_str(v, hp, "name", Ghost(hyp), Ghost(if hyp { gseq[k].name@ } else { Seq::empty() }), Ghost(ga))?;
        let (gperm, q2) = read_req_u32(v, q1, "perm_lvl", Ghost(hyp), Ghost(if hyp { gseq[k].perm_lvl } else { 0 }), Ghost(gb))?;
        let (gmax, q3) = read_req_u32(v, q2, "max_custom_cmds", Ghost(hyp), Ghost(if hyp { gseq[k].max_custom_cmds } else { 0 }), Ghost(gc))?;
        groups.push(PermissionGroup { name: gname, perm_lvl: gperm, max_custom_cmds: gmax });
        if q3 <= gp {
            proof {
                if hyp {
                    assert(false);
                }
            }
            return Err(deser_err("a permission group did not advance"));
        }
        gp = q3;
        proof {
            if hyp {
                assert(v@.subrange(gp as int, n as int) == groups_toml(
                    gseq.skip(groups@.len() as int),
                ));
            }
        }
    }
    proof {
        if hyp {
            assert(v@.subrange(gp as int, n as int).len() == 0);
            if groups@.len() < gseq.len() {
                let k = groups@.len() as int;
                assert(gseq.skip(k)[0] == gseq[k]);
                assert(groups_toml(gseq.skip(k)) == group_toml(gseq.skip(k)[0]) + groups_toml(
                    gseq.skip(k).skip(1),
                ));
                reveal_strlit("[[server_specific.permission_groups]]\n");
                assert("[[server_specific.permission_groups]]\n"@.len() == 38);
                assert(group_toml(gseq[k]).len() >= 38);
                assert(groups_toml(gseq.skip(k)).len() >= 38);
                assert(false);
            }
            assert(groups@.len() == gseq.len());
        }
    }
    Ok(groups)
}

/// The canonical text regrouped to the right: each line split off in
/// turn, for walking the file front to back.
#[verifier::rlimit(100)]
#[verifier::spinoff_prover]
proof fn lemma_toml_assoc(c: Config)
    ensures
        spec_config_toml(c) == "[credentials]\n"@ + (opt_str_line(
            "bot_token"@,
            c.credentials.bot_token,
        ) + (opt_str_line("youtube_api_key"@, c.credentials.youtube_api_key) + (opt_str_line(
            "giphy_api_key"@,
            c.credentials.giphy_api_key,
        ) + ("[global]\n"@ + (str_line("current_status"@, c.global.current_status@) + (str_line(
            "path_database"@,
            c.global.path_database@,
        ) + (opt_num_list_line("superusers"@, c.global.superusers) + (num_line(
            "xp_cooldown"@,
            c.global.xp_cooldown as nat,
        ) + (opt_str_line("activity"@, c.global.activity) + ("[global.metrics]\n"@ + (bool_line(
            "activated"@,
            c.global.metrics.activated,
        ) + (num_line("exporter_port"@, c.global.metrics.exporter_port as nat) + (
        "[server_specific]\n"@ + (str_line("prefix"@, c.server_specific.prefix@) + (str_line(
            "locale"@,
            c.server_specific.locale@,
        ) + groups_toml(c.server_specific.permission_groups@)))))))))))))))),
{
    let p1: Seq<char> = "[credentials]\n"@;
    let p2: Seq<char> = opt_str_line("bot_token"@, c.credentials.bot_token);
    let p3: Seq<char> = opt_str_line("youtube_api_key"@, c.credentials.youtube_api_key);
    let p4: Seq<char> = opt_str_line("giphy_api_key"@, c.credentials.giphy_api_key);
    let p5: Seq<char> = "[global]\n"@;
    let p6: Seq<char> = str_line("current_status"@, c.global.current_status@);
    let p7: Seq<char> = str_line("path_database"@, c.global.path_database@);
    let p8: Seq<char> = opt_num_list_line("superusers"@, c.global.superusers);
    let p9: Seq<char> = num_line("xp_cooldown"@, c.global.xp_cooldown as nat);
    let p10: Seq<char> = opt_str_line("activity"@, c.global.activity);
    let p11: Seq<char> = "[global.metrics]\n"@;
    let p12: Seq<char> = bool_line("activated"@, c.global.metrics.activated);
    let p13: Seq<char> = num_line("exporter_port"@, c.global.metrics.exporter_port as nat);
    let p14: Seq<char> = "[server_specific]\n"@;
    let p15: Seq<char> = str_line("prefix"@, c.server_specific.prefix@);
    let p16: Seq<char> = str_line("locale"@, c.server_specific.locale@);
    let p17: Seq<char> = groups_toml(c.server_specific.permission_groups@);
    let l1: Seq<char> = p1;
    let l2: Seq<char> = l1 + p2;
    let l3: Seq<char> = l2 + p3;
    let l4: Seq<char> = l3 + p4;
    let l5: Seq<char> = l4 + p5;
    let l6: Seq<char> = l5 + p6;
    let l7: Seq<char> = l6 + p7;
    let l8: Seq<char> = l7 + p8;
    let l9: Seq<char> = l8 + p9;
    let l10: Seq<char> = l9 + p10;
    let l11: Seq<char> = l10 + p11;
    let l12: Seq<char> = l11 + p12;
    let l13: Seq<char> = l12 + p13;
    let l14: Seq<char> = l13 + p14;
    let l15: Seq<char> = l14 + p15;
    let l16: Seq<char> = l15 + p16;
    let s17: Seq<char> = p17;
    let s16: Seq<char> = p16 + s17;
    let s15: Seq<char> = p15 + s16;
    let s14: Seq<char> = p14 + s15;
    let s13: Seq<char> = p13 + s14;
    let s12: Seq<char> = p12 + s13;
    let s11: Seq<char> = p11 + s12;
    let s10: Seq<char> = p10 + s11;
    let s9: Seq<char> = p9 + s10;
    let s8: Seq<char> = p8 + s9;
    let s7: Seq<char> = p7 + s8;
    let s6: Seq<char> = p6 + s7;
    let s5: Seq<char> = p5 + s6;
    let s4: Seq<char> = p4 + s5;
    let s3: Seq<char> = p3 + s4;
    let s2: Seq<char> = p2 + s3;
    let s1: Seq<char> = p1 + s2;
    assert(spec_config_toml(c) == l16 + p17);
    assert(l16 + p17 == l16 + s17);
    vstd::seq_lib::lemma_concat_associative(l15, p16, s17);
    assert(l16 + s17 == l15 + s16);
    vstd::seq_lib::lemma_concat_associative(l14, p15, s16);
    assert(l15 + s16 == l14 + s15);
    vstd::seq_lib::lemma_concat_associative(l13, p14, s15);
    assert(l14 + s15 == l13 + s14);
    vstd::seq_lib::lemma_concat_associative(l12, p13, s14);
    assert(l13 + s14 == l12 + s13);
    vstd::seq_lib::lemma_concat_associative(l11, p12, s13);
    assert(l12 + s13 == l11 + s12);
    vstd::seq_lib::lemma_concat_associative(l10, p11, s12);
    assert(l11 + s12 == l10 + s11);
    vstd::seq_lib::lemma_concat_associative(l9, p10, s11);
    assert(l10 + s11 == l9 + s10);
    vstd::seq_lib::lemma_concat_associative(l8, p9, s10);
    assert(l9 + s10 == l8 + s9);
    vstd::seq_lib::lemma_concat_associative(l7, p8, s9);
    assert(l8 + s9 == l7 + s8);
    vstd::seq_lib::lemma_concat_associative(l6, p7, s8);
    assert(l7 + s8 == l6 + s7);
    vstd::seq_lib::lemma_concat_associative(l5, p6, s7);
    assert(l6 + s7 == l5 + s6);
    vstd::seq_lib::lemma_concat_associative(l4, p5, s6);
    assert(l5 + s6 == l4 + s5);
    vstd::seq_lib::lemma_concat_associative(l3, p4, s5);
    assert(l4 + s5 == l3 + s4);
    vstd::seq_lib::lemma_concat_associative(l2, p3, s4);
    assert(l3 + s4 == l2 + s3);
    vstd::seq_lib::lemma_concat_associative(l1, p2, s3);
    assert(l2 + s3 == l1 + s2);
    assert(l1 + s2 == s1);
    assert(spec_config_toml(c) == s1);
}

/// Reads the credentials table: three optional string lines in a fixed
/// order, each present exactly when the configuration holds it.
#[verifier::rlimit(100)]
#[verifier::spinoff_prover]
#[allow(clippy::type_complexity)]
fn read_creds(
    v: &Vec<char>,
    Ghost(hyp): Ghost<bool>,
    Ghost(fbot): Ghost<Option<Seq<char>>>,
    Ghost(fyt): Ghost<Option<Seq<char>>>,
    Ghost(fgiphy): Ghost<Option<Seq<char>>>,
    Ghost(rest): Ghost<Seq<char>>,
) -> (r: Result<((Option<String>, Option<String>, Option<String>), usize), ConfigError>)
    requires
        hyp ==> (fbot matches Some(s) ==> qfree(s)),
        hyp ==> (fyt matches Some(s) ==> qfree(s)),
        hyp ==> (fgiphy matches Some(s) ==> qfree(s)),
        hyp ==> rest.len() > 0 && rest[0] == '[',
        hyp ==> v@ == "[credentials]\n"@ + (opt_str_line_v("bot_token"@, fbot)
            + (opt_str_line_v("youtube_api_key"@, fyt) + (opt_str_line_v(
            "giphy_api_key"@,
            fgiphy,
        ) + rest))),
    ensures
        r matches Err(e) ==> (e matches ConfigError::Deserialize(_)) && !hyp,
        r matches Ok((f, p)) ==> p <= v@.len(),
        hyp ==> (r matches Ok((f, p)) && opt_str_is_cfg(f.0, fbot) && opt_str_is_cfg(f.1, fyt)
            && opt_str_is_cfg(f.2, fgiphy) && v@.subrange(p as int, v@.len() as int) == rest),
{
    let n = v.len();
    let ghost a3: Seq<char> = opt_str_line_v("youtube_api_key"@, fyt) + (opt_str_line_v(
        "giphy_api_key"@,
        fgiphy,
    ) + rest);
    let ghost a4: Seq<char> = opt_str_line_v("giphy_api_key"@, fgiphy) + rest;
    proof {
        if hyp {
            assert(v@ =~= "[credentials]\n"@ + (opt_str_line_v("bot_token"@, fbot) + a3));
            assert(v@.subrange(0, v@.len() as int) =~= v@);
            lemma_prefix_piece(v@, 0, "[credentials]\n"@, opt_str_line_v("bot_token"@, fbot) + a3);
        }
    }
    let pos0 = match expect_lit(v, 0, "[credentials]\n") {
        Some(p) => p,
        None => {
            proof {
                if hyp {
                    assert(false);
                }
            }
            return Err(deser_err("expected the credentials table"));
        },
    };
    proof {
        if hyp {
            if fbot is None {
                reveal_strlit("bot_token");
                reveal_strlit("youtube_api_key");
                reveal_strlit("giphy_api_key");
                assert(v@.subrange(pos0 as int, n as int) =~= a3);
                match fyt {
                    Some(sv) => {
                        assert(a3[0] == "youtube_api_key"@[0]);
                        lemma_opt_absent(v@, pos0 as int, "bot_token"@, a3, 'y');
                    },
                    None => {
                        assert(a3 =~= a4);
                        match fgiphy {
                            Some(sv2) => {
                                assert(a4[0] == "giphy_api_key"@[0]);
                                lemma_opt_absent(v@, pos0 as int, "bot_token"@, a4, 'g');
                            },
                            None => {
                                assert(a4 =~= rest);
                                lemma_opt_absent(v@, pos0 as int, "bot_token"@, rest, '[');
                            },
                        }
                    },
                }
            }
        }
    }
    let (bot_token, pos1) = read_opt_str(v, pos0, "bot_token", Ghost(hyp), Ghost(fbot), Ghost(a3))?;
    proof {
        if hyp {
            if fyt is None {
                reveal_strlit("youtube_api_key");
                reveal_strlit("giphy_api_key");
                assert(v@.subrange(pos1 as int, n as int) =~= a4);
                match fgiphy {
                    Some(sv) => {
                        assert(a4[0] == "giphy_api_key"@[0]);
                        lemma_opt_absent(v@, pos1 as int, "youtube_api_key"@, a4, 'g');
                    },
                    None => {
                        assert(a4 =~= rest);
                        lemma_opt_absent(v@, pos1 as int, "youtube_api_key"@, rest, '[');
                    },
                }
            }
        }
    }
    let (youtube_api_key, pos2) = read_opt_str(v, pos1, "youtube_api_key", Ghost(hyp), Ghost(fyt), Ghost(a4))?;
    proof {
        if hyp {
            if fgiphy is None {
                reveal_strlit("giphy_api_key");
                assert(v@.subrange(pos2 as int, n as int) =~= rest);
                lemma_opt_absent(v@, pos2 as int, "giphy_api_key"@, rest, '[');
            }
        }
    }
    let (giphy_api_key, pos3) = read_opt_str(v, pos2, "giphy_api_key", Ghost(hyp), Ghost(fgiphy), Ghost(rest))?;
    Ok(((bot_token, youtube_api_key, giphy_api_key), pos3))
}

/// Reads the global table: two required strings, an optional superuser
/// list, the cooldown, and an optional activity line.
#[verifier::rlimit(100)]
#[verifier::spinoff_prover]
#[allow(clippy::type_complexity)]
fn read_globals(
    v: &Vec<char>,
    pos: usize,
    Ghost(hyp): Ghost<bool>,
    Ghost(c0): Ghost<Config>,
    Ghost(rest): Ghost<Seq<char>>,
) -> (r: Result<((String, String, Option<Vec<u64>>, u32, Option<String>), usize), ConfigError>)
    requires
        pos <= v@.len(),
        hyp ==> cfg_ranges(c0),
        hyp ==> rest.len() > 0 && rest[0] == '[',
        hyp ==> v@.subrange(pos as int, v@.len() as int) == "[global]\n"@ + (str_line(
            "current_status"@,
            c0.global.current_status@,
        ) + (str_line("path_database"@, c0.global.path_database@) + (opt_num_list_line(
            "superusers"@,
            c0.global.superusers,
        ) + (num_line("xp_cooldown"@, c0.global.xp_cooldown as nat) + (opt_str_line_v(
            "activity"@,
            opt_view(c0.global.activity),
        ) + rest))))),
    ensures
        r matches Err(e) ==> (e matches ConfigError::Deserialize(_)) && !hyp,
        r matches Ok(t) ==> t.1 <= v@.len(),
        hyp ==> (r matches Ok(t) && ({
            &&& t.0.0@ == c0.global.current_status@
            &&& t.0.1@ == c0.global.path_database@
            &&& (match (t.0.2, c0.global.superusers) {
                (Some(x), Some(y)) => x@ == y@,
                (None, None) => true,
                _ => false,
            })
            &&& t.0.3 == c0.global.xp_cooldown
            &&& opt_str_is_cfg(t.0.4, opt_view(c0.global.activity))
            &&& v@.subrange(t.1 as int, v@.len() as int) == rest
        })),
{
    let n = v.len();
    let ghost fact: Option<Seq<char>> = opt_view(c0.global.activity);
    let ghost r10: Seq<char> = opt_str_line_v("activity"@, fact) + rest;
    let ghost r9: Seq<char> = num_line("xp_cooldown"@, c0.global.xp_cooldown as nat) + r10;
    let ghost r8: Seq<char> = opt_num_list_line("superusers"@, c0.global.superusers) + r9;
    let ghost r7: Seq<char> = str_line("path_database"@, c0.global.path_database@) + r8;
    let ghost r6: Seq<char> = str_line("current_status"@, c0.global.current_status@) + r7;
    proof {
        if hyp {
            assert(v@.subrange(pos as int, n as int) =~= "[global]\n"@ + r6);
            lemma_prefix_piece(v@, pos as int, "[global]\n"@, r6);
        }
    }
    let pos4 = match expect_lit(v, pos, "[global]\n") {
        Some(p) => p,
        None => {
            proof {
                if hyp {
                    assert(false);
                }
            }
            return Err(deser_err("expected the global table"));
        },
    };
    let (current_status, pos5) = read_req_str(v, pos4, "current_status", Ghost(hyp), Ghost(c0.global.current_status@), Ghost(r7))?;
    let (path_database, pos6) = read_req_str(v, pos5, "path_database", Ghost(hyp), Ghost(c0.global.path_database@), Ghost(r8))?;
    let ghost gxs: Seq<u64> = match c0.global.superusers {
        Some(xs) => xs@,
        None => Seq::empty(),
    };
    let probe_su = expect_lit(v, pos6, "superusers");
    let (superusers, pos7): (Option<Vec<u64>>, usize) = match probe_su {
        Some(_) => {
            proof {
                if hyp {
                    if c0.global.superusers is None {
                        reveal_strlit("superusers");
                        reveal_strlit("xp_cooldown");
                        assert(v@.subrange(pos6 as int, n as int) =~= r9);
                        assert(v@[pos6 as int] == r9[0]);
                        assert(r9[0] == 'x');
                        assert(v@.subrange(pos6 as int, pos6 + "superusers"@.len())[0] == v@[
                            pos6 as int]);
                        assert(false);
                    }
                    assert(v@.subrange(pos6 as int, n as int) == ("superusers"@ + " = ["@
                        + num_list(gxs) + "]\n"@) + r9) by {
                        assert(v@.subrange(pos6 as int, n as int) =~= ("superusers"@ + " = ["@
                            + num_list(gxs) + "]\n"@) + r9);
                    }
                }
            }
            let (items, p) = read_su_line(v, pos6, Ghost(hyp), Ghost(gxs), Ghost(r9))?;
            (Some(items), p)
        },
        None => {
            proof {
                if hyp {
                    if c0.global.superusers is Some {
                        assert(v@.subrange(pos6 as int, pos6 + "superusers"@.len())
                            =~= "superusers"@);
                        assert(false);
                    }
                    assert(v@.subrange(pos6 as int, n as int) =~= r9);
                }
            }
            (None, pos6)
        },
    };
    let (xp_cooldown, pos8) = read_req_u32(v, pos7, "xp_cooldown", Ghost(hyp), Ghost(c0.global.xp_cooldown), Ghost(r10))?;
    proof {
        if hyp {
            if fact is None {
                reveal_strlit("activity");
                assert(v@.subrange(pos8 as int, n as int) =~= rest);
                lemma_opt_absent(v@, pos8 as int, "activity"@, rest, '[');
            }
        }
    }
    let (activity, pos9) = read_opt_str(v, pos8, "activity", Ghost(hyp), Ghost(fact), Ghost(rest))?;
    Ok(((current_status, path_database, superusers, xp_cooldown, activity), pos9))
}

/// Reads the credentials and global tables: everything before the metrics
/// table.
#[verifier::rlimit(100)]
#[verifier::spinoff_prover]
#[allow(clippy::type_complexity)]
fn read_head(
    v: &Vec<char>,
    Ghost(hyp): Ghost<bool>,
    Ghost(c0): Ghost<Config>,
) -> (r: Result<
    (
        (Option<String>, Option<String>, Option<String>),
        (String, String, Option<Vec<u64>>, u32, Option<String>),
        usize,
    ),
    ConfigError,
>)
    requires
        hyp ==> cfg_ranges(c0) && v@ == spec_config_toml(c0),
    ensures
        r matches Err(e) ==> (e matches ConfigError::Deserialize(_)) && !hyp,
        r matches Ok(t) ==> t.2 <= v@.len(),
        hyp ==> (r matches Ok(t) && ({
            &&& opt_str_is_cfg(t.0.0, opt_view(c0.credentials.bot_token))
            &&& opt_str_is_cfg(t.0.1, opt_view(c0.credentials.youtube_api_key))
            &&& opt_str_is_cfg(t.0.2, opt_view(c0.credentials.giphy_api_key))
            &&& t.1.0@ == c0.global.current_status@
            &&& t.1.1@ == c0.global.path_database@
            &&& (match (t.1.2, c0.global.superusers) {
                (Some(x), Some(y)) => x@ == y@,
                (None, None) => true,
                _ => false,
            })
            &&& t.1.3 == c0.global.xp_cooldown
            &&& opt_str_is_cfg(t.1.4, opt_view(c0.global.activity))
            &&& v@.subrange(t.2 as int, v@.len() as int) == "[global.metrics]\n"@ + (bool_line(
                "activated"@,
                c0.global.metrics.activated,
            ) + (num_line("exporter_port"@, c0.global.metrics.exporter_port as nat) + (
            "[server_specific]\n"@ + (str_line("prefix"@, c0.server_specific.prefix@) + (
            str_line("locale"@, c0.server_specific.locale@) + groups_toml(
                c0.server_specific.permission_groups@,
            ))))))
        })),
{
    let n = v.len();
    let ghost fbot: Option<Seq<char>> = opt_view(c0.credentials.bot_token);
    let ghost fyt: Option<Seq<char>> = opt_view(c0.credentials.youtube_api_key);
    let ghost fgiphy: Option<Seq<char>> = opt_view(c0.credentials.giphy_api_key);
    let ghost fact: Option<Seq<char>> = opt_view(c0.global.activity);
    let ghost g17: Seq<char> = groups_toml(c0.server_specific.permission_groups@);
    let ghost r16: Seq<char> = str_line("locale"@, c0.server_specific.locale@) + g17;
    let ghost r15: Seq<char> = str_line("prefix"@, c0.server_specific.prefix@) + r16;
    let ghost r14: Seq<char> = "[server_specific]\n"@ + r15;
    let ghost r13: Seq<char> = num_line(
        "exporter_port"@,
        c0.global.metrics.exporter_port as nat,
    ) + r14;
    let ghost r12: Seq<char> = bool_line("activated"@, c0.global.metrics.activated) + r13;
    let ghost r11: Seq<char> = "[global.metrics]\n"@ + r12;
    let ghost r10: Seq<char> = opt_str_line_v("activity"@, fact) + r11;
    let ghost r9: Seq<char> = num_line("xp_cooldown"@, c0.global.xp_cooldown as nat) + r10;
    let ghost r8: Seq<char> = opt_num_list_line("superusers"@, c0.global.superusers) + r9;
    let ghost r7: Seq<char> = str_line("path_database"@, c0.global.path_database@) + r8;
    let ghost r6: Seq<char> = str_line("current_status"@, c0.global.current_status@) + r7;
    let ghost r5: Seq<char> = "[global]\n"@ + r6;
    let ghost r4: Seq<char> = opt_str_line_v("giphy_api_key"@, fgiphy) + r5;
    let ghost r3: Seq<char> = opt_str_line_v("youtube_api_key"@, fyt) + r4;
    let ghost r2: Seq<char> = opt_str_line_v("bot_token"@, fbot) + r3;
    proof {
        if hyp {
            assert(opt_str_line_v("bot_token"@, fbot) == opt_str_line(
                "bot_token"@,
                c0.credentials.bot_token,
            ));
            assert(opt_str_line_v("youtube_api_key"@, fyt) == opt_str_line(
                "youtube_api_key"@,
                c0.credentials.youtube_api_key,
            ));
            assert(opt_str_line_v("giphy_api_key"@, fgiphy) == opt_str_line(
                "giphy_api_key"@,
                c0.credentials.giphy_api_key,
            ));
            assert(opt_str_line_v("activity"@, fact) == opt_str_line(
                "activity"@,
                c0.global.activity,
            ));
            assert(fbot matches Some(s) ==> qfree(s));
            assert(fyt matches Some(s) ==> qfree(s));
            assert(fgiphy matches Some(s) ==> qfree(s));
            assert(r5.len() > 0 && r5[0] == '[') by {
                reveal_strlit("[global]\n");
                assert(r5[0] == "[global]\n"@[0]);
            }
            lemma_toml_assoc(c0);
            assert(v@ == "[credentials]\n"@ + (opt_str_line_v("bot_token"@, fbot)
                + (opt_str_line_v("youtube_api_key"@, fyt) + (opt_str_line_v(
                "giphy_api_key"@,
                fgiphy,
            ) + r5))));
        }
    }
    let (creds, pos3) = read_creds(v, Ghost(hyp), Ghost(fbot), Ghost(fyt), Ghost(fgiphy), Ghost(r5))?;
    let (bot_token, youtube_api_key, giphy_api_key) = creds;
    proof {
        if hyp {
            assert(r11.len() > 0 && r11[0] == '[') by {
                reveal_strlit("[global.metrics]\n");
                assert(r11[0] == "[global.metrics]\n"@[0]);
            }
            assert(v@.subrange(pos3 as int, n as int) == "[global]\n"@ + (str_line(
                "current_status"@,
                c0.global.current_status@,
            ) + (str_line("path_database"@, c0.global.path_database@) + (opt_num_list_line(
                "superusers"@,
                c0.global.superusers,
            ) + (num_line("xp_cooldown"@, c0.global.xp_cooldown as nat) + (opt_str_line_v(
                "activity"@,
                fact,
            ) + r11))))));
        }
    }
    let (globals, pos9) = read_globals(v, pos3, Ghost(hyp), Ghost(c0), Ghost(r11))?;
    let (current_status, path_database, superusers, xp_cooldown, activity) = globals;
    Ok(
        (
            (bot_token, youtube_api_key, giphy_api_key),
            (current_status, path_database, superusers, xp_cooldown, activity),
            pos9,
        ),
    )
}

impl Config {
    /// Renders the configuration in the canonical file format.
    #[verifier::rlimit(60)]
    pub fn write_config_file(config: &Config) -> (r: String)
        ensures
            r@ == spec_config_toml(*config),
    {
        let ghost c = *config;
        let ghost p1 = "[credentials]\n"@ + opt_str_line("bot_token"@, c.credentials.bot_token)
            + opt_str_line("youtube_api_key"@, c.credentials.youtube_api_key) + opt_str_line(
            "giphy_api_key"@,
            c.credentials.giphy_api_key,
        );
        let ghost p2 = p1 + "[global]\n"@ + str_line("current_status"@, c.global.current_status@)
            + str_line("path_database"@, c.global.path_database@) + opt_num_list_line(
            "superusers"@,
            c.global.superusers,
        ) + num_line("xp_cooldown"@, c.global.xp_cooldown as nat) + opt_str_line(
            "activity"@,
            c.global.activity,
        );
        let ghost p3 = p2 + "[global.metrics]\n"@ + bool_line("activated"@, c.global.metrics.activated)
            + num_line("exporter_port"@, c.global.metrics.exporter_port as nat);
        let ghost p4 = p3 + "[server_specific]\n"@ + str_line("prefix"@, c.server_specific.prefix@)
            + str_line("locale"@, c.server_specific.locale@);
        let mut out = String::new();
        out.append("[credentials]\n");
        emit_opt_str_line(&mut out, "bot_token", &config.credentials.bot_token);
        emit_opt_str_line(&mut out, "youtube_api_key", &config.credentials.youtube_api_key);
        emit_opt_str_line(&mut out, "giphy_api_key", &config.credentials.giphy_api_key);
        assert(out@ =~= p1);
        out.append("[global]\n");
        emit_str_line(&mut out, "current_status", config.global.current_status.as_str());
        emit_str_line(&mut out, "path_database", config.global.path_database.as_str());
        match &config.global.superusers {
            Some(xs) => {
                out.append("superusers");
                out.append(" = [");
                emit_num_list(&mut out, xs, 0);
                out.append("]\n");
                proof {
                    assert(xs@.skip(0) =~= xs@);
                }
            },
            None => {
            },
        }
        emit_num_line(&mut out, "xp_cooldown", config.global.xp_cooldown as u64);
        emit_opt_str_line(&mut out, "activity", &config.global.activity);
        assert(out@ =~= p2);
        out.append("[global.metrics]\n");
        emit_bool_line(&mut out, "activated", config.global.metrics.activated);
        emit_num_line(&mut out, "exporter_port", config.global.metrics.exporter_port as u64);
        assert(out@ =~= p3);
        out.append("[server_specific]\n");
        emit_str_line(&mut out, "prefix", config.server_specific.prefix.as_str());
        emit_str_line(&mut out, "locale", config.server_specific.locale.as_str());
        assert(out@ =~= p4);
        proof {
            assert(config.server_specific.permission_groups@.skip(0)
                =~= config.server_specific.permission_groups@);
        }
        emit_groups(&mut out, &config.server_specific.permission_groups, 0);
        assert(out@ =~= p4 + groups_toml(c.server_specific.permission_groups@));
        assert(out@ =~= spec_config_toml(*config));
        out
    }

    /// Reads a configuration back from the canonical file format, table by
    /// table in the order the writer emits them; an accepted file is
    /// exactly `spec_config_toml` of the result, which ties the result to
    /// the text, and on the canonical rendering of any configuration in
    /// the documented ranges success is owed.
    #[verifier::rlimit(100)]
    #[verifier::spinoff_prover]
    pub fn read_config_file(data: &str) -> (r: Result<Config, ConfigError>)
        ensures
            r matches Ok(c) ==> data@ == spec_config_toml(c) && config_wf(c),
            r matches Err(e) ==> e matches ConfigError::Deserialize(_),
            (exists|c: Config| cfg_ranges(c) && data@ == #[trigger] spec_config_toml(c))
                ==> r is Ok,
    {
        let v = chars_of(data);
        let ghost hyp: bool = exists|c: Config|
            cfg_ranges(c) && data@ == #[trigger] spec_config_toml(c);
        let ghost c0: Config = if hyp {
            choose|c: Config| cfg_ranges(c) && data@ == #[trigger] spec_config_toml(c)
        } else {
            vstd::pervasive::arbitrary()
        };
        let head = read_head(&v, Ghost(hyp), Ghost(c0))?;
        let (bot_token, youtube_api_key, giphy_api_key) = head.0;
        let (current_status, path_database, superusers, xp_cooldown, activity) = head.1;
        let pos9 = head.2;
        let ghost g17: Seq<char> = groups_toml(c0.server_specific.permission_groups@);
        let ghost r16: Seq<char> = str_line("locale"@, c0.server_specific.locale@) + g17;
        let ghost r15: Seq<char> = str_line("prefix"@, c0.server_specific.prefix@) + r16;
        let ghost r14: Seq<char> = "[server_specific]\n"@ + r15;
        let ghost r13: Seq<char> = num_line(
            "exporter_port"@,
            c0.global.metrics.exporter_port as nat,
        ) + r14;
        let ghost r12: Seq<char> = bool_line("activated"@, c0.global.metrics.activated) + r13;
        let ghost r11: Seq<char> = "[global.metrics]\n"@ + r12;
        let n = v.len();
        proof {
            if hyp {
                assert(v@.subrange(pos9 as int, n as int) =~= r11);
            }
        }
        let pos10 = match expect_lit(&v, pos9, "[global.metrics]\n") {
            Some(p) => p,
            None => {
                proof {
                    if hyp {
                        assert(v@.subrange(pos9 as int, pos9 + "[global.metrics]\n"@.len())
                            =~= "[global.metrics]\n"@);
                        assert(false);
                    }
                }
                return Err(deser_err("expected the metrics table"));
            },
        };
        proof {
            if hyp {
                assert(v@.subrange(pos10 as int, n as int) =~= r12);
            }
        }
        let (activated, pos11) = read_bool_line(&v, pos10, "activated", Ghost(hyp), Ghost(c0.global.metrics.activated), Ghost(r13))?;
        let (exporter_port, pos12) = read_req_u32(&v, pos11, "exporter_port", Ghost(hyp), Ghost(c0.global.metrics.exporter_port), Ghost(r14))?;
        let pos13 = match expect_lit(&v, pos12, "[server_specific]\n") {
            Some(p) => p,
            None => {
                proof {
                    if hyp {
                        assert(v@.subrange(pos12 as int, pos12 + "[server_specific]\n"@.len())
                            =~= "[server_specific]\n"@);
                        assert(false);
                    }
                }
                return Err(deser_err("expected the server table"));
            },
        };
        proof {
            if hyp {
                assert(v@.subrange(pos13 as int, n as int) =~= r15);
            }
        }
        let (prefix, pos14) = read_req_str(&v, pos13, "prefix", Ghost(hyp), Ghost(c0.server_specific.prefix@), Ghost(r16))?;
        let (locale, pos15) = read_req_str(&v, pos14, "locale", Ghost(hyp), Ghost(c0.server_specific.locale@), Ghost(g17))?;
        let ghost gseq = c0.server_specific.permission_groups@;
        let groups = read_groups(&v, pos15, Ghost(hyp), Ghost(gseq))?;
        if groups.is_empty() {
            proof {
                if hyp {
                    assert(false);
                }
            }
            return Err(deser_err("missing permission_groups"));
        }
        if prefix.as_str().unicode_len() == 0 {
            proof {
                if hyp {
                    assert(false);
                }
            }
            return Err(deser_err("empty prefix"));
        }
        let candidate = Config {
            credentials: Credentials { bot_token, youtube_api_key, giphy_api_key },
            global: Global {
                current_status,
                path_database,
                superusers,
                xp_cooldown,
                activity,
                metrics: Metrics { activated, exporter_port },
            },
            server_specific: ServerSpecific { prefix, locale, permission_groups: groups },
        };
        let rendered = Self::write_config_file(&candidate);
        if crate::text::str_eq(data, rendered.as_str()) {
            Ok(candidate)
        } else {
            proof {
                if hyp {
                    assert(config_like(candidate, c0));
                    lemma_toml_like(candidate, c0);
                    assert(false);
                }
            }
            Err(deser_err("file is not in canonical form"))
        }
    }


    /// Builds the configuration at startup: parses the existing file when one
    /// was found, and otherwise yields the default configuration together
    /// with the file that should be written for it.
    pub fn new(existing: Option<&str>) -> (r: Result<(Config, Option<String>), ConfigError>)
        ensures
            match r {
                Ok((c, w)) => match existing {
                    Some(data) => w is None && data@ == spec_config_toml(c),
                    None => is_default_config(c) && match w {
                        Some(f) => f@ == spec_config_toml(c),
                        None => false,
                    },
                },
                Err(_) => existing is Some,
            },
    {
        match existing {
            Some(data) => {
                let c = Self::read_config_file(data)?;
                Ok((c, None))
            },
            None => {
                let c = Self::default();
                let file = Self::write_config_file(&c);
                Ok((c, Some(file)))
            },
        }
    }

    pub fn get_creds(&self) -> (r: &Credentials)
        ensures
            *r == self.credentials,
    {
        &self.credentials
    }

    pub fn get_prefix(&self) -> (r: &str)
        ensures
            r@ == self.server_specific.prefix@,
    {
        self.server_specific.prefix.as_str()
    }

    pub fn get_locale(&self) -> (r: &str)
        ensures
            r@ == self.server_specific.locale@,
    {
        self.server_specific.locale.as_str()
    }

    pub fn get_activity(&self) -> (r: Option<&String>)
        ensures
            match r {
                Some(a) => self.global.activity == Some(*a),
                None => self.global.activity is None,
            },
    {
        self.global.activity.as_ref()
    }

    /// Replaces the stored activity and returns the file contents that
    /// persist the updated configuration.
    pub fn change_activity(&mut self, activity: Option<String>) -> (file: String)
        ensures
            final(self).global.activity == activity,
            final(self).credentials == old(self).credentials,
            final(self).server_specific == old(self).server_specific,
            final(self).global.current_status == old(self).global.current_status,
            final(self).global.path_database == old(self).global.path_database,
            final(self).global.superusers == old(self).global.superusers,
            final(self).global.xp_cooldown == old(self).global.xp_cooldown,
            final(self).global.metrics == old(self).global.metrics,
            file@ == spec_config_toml(*final(self)),
    {
        self.global.activity = activity;
        Self::write_config_file(self)
    }
}

/// A well-formed configuration: the prefix is non-empty, as every
/// configuration the library reads or writes by default guarantees.
pub open spec fn config_wf(c: Config) -> bool {
    c.server_specific.prefix@.len() > 0
}

/// Field-by-field description of the default configuration.
pub open spec fn is_default_config(c: Config) -> bool {
    &&& c.credentials.bot_token is None
    &&& c.credentials.youtube_api_key is None
    &&& c.credentials.giphy_api_key is None
    &&& c.global.current_status@ == "Type $help"@
    &&& c.global.path_database@ == "./storage/data.db"@
    &&& c.global.superusers is None
    &&& c.global.xp_cooldown == 3000u32
    &&& c.global.activity matches Some(a) && a@ == "Type $help"@
    &&& !c.global.metrics.activated
    &&& c.global.metrics.exporter_port == 4444u32
    &&& c.server_specific.prefix@ == "$"@
    &&& c.server_specific.locale@ == "en-US"@
    &&& c.server_specific.permission_groups@.len() == 4
    &&& c.server_specific.permission_groups@[0].name@ == "User"@
    &&& c.server_specific.permission_groups@[0].perm_lvl == 0u32
    &&& c.server_specific.permission_groups@[0].max_custom_cmds == 0u32
    &&& c.server_specific.permission_groups@[1].name@ == "Member"@
    &&& c.server_specific.permission_groups@[1].perm_lvl == 1u32
    &&& c.server_specific.permission_groups@[1].max_custom_cmds == 5u32
    &&& c.server_specific.permission_groups@[2].name@ == "Mod"@
    &&& c.server_specific.permission_groups@[2].perm_lvl == 2u32
    &&& c.server_specific.permission_groups@[2].max_custom_cmds == 10u32
    &&& c.server_specific.permission_groups@[3].name@ == "Admin"@
    &&& c.server_specific.permission_groups@[3].perm_lvl == 3u32
    &&& c.server_specific.permission_groups@[3].max_custom_cmds == 15u32
}

impl Default for Credentials {
    fn default() -> (r: Self)
        ensures
            r.bot_token is None,
            r.youtube_api_key is None,
            r.giphy_api_key is None,
    {
        Self { bot_token: None, youtube_api_key: None, giphy_api_key: None }
    }
}

impl Default for Metrics {
    fn default() -> (r: Self)
        ensures
            !r.activated,
            r.exporter_port == 4444u32,
    {
        Self { activated: false, exporter_port: 4444 }
    }
}

impl Default for Global {
    fn default() -> (r: Self)
        ensures
            r.current_status@ == "Type $help"@,
            r.path_database@ == "./storage/data.db"@,
            r.superusers is None,
            r.xp_cooldown == 3000u32,
            r.activity matches Some(a) && a@ == "Type $help"@,
            !r.metrics.activated,
            r.metrics.exporter_port == 4444u32,
    {
        Self {
            current_status: String::from_str("Type $help"),
            path_database: String::from_str("./storage/data.db"),
            superusers: None,
            xp_cooldown: 3000,
            activity: Some(String::from_str("Type $help")),
            metrics: Metrics::default(),
        }
    }
}

fn default_group(name: &str, perm_lvl: u32, max_custom_cmds: u32) -> (r: PermissionGroup)
    ensures
        r.name@ == name@,
        r.perm_lvl == perm_lvl,
        r.max_custom_cmds == max_custom_cmds,
{
    PermissionGroup { name: String::from_str(name), perm_lvl, max_custom_cmds }
}

impl Default for ServerSpecific {
    fn default() -> (r: Self)
        ensures
            r.prefix@ == "$"@,
            r.locale@ == "en-US"@,
            r.permission_groups@.len() == 4,
            r.permission_groups@[0].name@ == "User"@ && r.permission_groups@[0].perm_lvl == 0u32
                && r.permission_groups@[0].max_custom_cmds == 0u32,
            r.permission_groups@[1].name@ == "Member"@ && r.permission_groups@[1].perm_lvl == 1u32
                && r.permission_groups@[1].max_custom_cmds == 5u32,
            r.permission_groups@[2].name@ == "Mod"@ && r.permission_groups@[2].perm_lvl == 2u32
                && r.permission_groups@[2].max_custom_cmds == 10u32,
            r.permission_groups@[3].name@ == "Admin"@ && r.permission_groups@[3].perm_lvl == 3u32
                && r.permission_groups@[3].max_custom_cmds == 15u32,
    {
        let mut permission_groups: Vec<PermissionGroup> = Vec::new();
        permission_groups.push(default_group("User", 0, 0));
        permission_groups.push(default_group("Member", 1, 5));
        permission_groups.push(default_group("Mod", 2, 10));
        permission_groups.push(default_group("Admin", 3, 15));
        Self {
            prefix: String::from_str("$"),
            locale: String::from_str("en-US"),
            permission_groups,
        }
    }
}

impl Default for Config {
    fn default() -> (r: Self)
        ensures
            is_default_config(r),
            config_wf(r),
    {
        proof {
            reveal_strlit("$");
        }
        Self {
            credentials: Credentials::default(),
            global: Global::default(),
            server_specific: ServerSpecific::default(),
        }
    }
}

} // verus!
