//! The gif commands: building the Giphy request URL, and turning the API's
//! response into a reply. The network call itself is made by the
//! surrounding program between those two steps.

use vstd::prelude::*;
use vstd::utf8::encode_utf8;
use crate::arguments::Args;
use crate::commands::HandlerError;
use crate::commands::owner::{http_sent_str, msg_tail};
use crate::json::{
    body_chars,
    find_member,
    parse_string_body,
    skip_value,
    skip_ws,
    sp_find_member,
    sp_string_body,
    sp_value_end,
    sp_ws,
    spec_max_depth,
};
use crate::transport::{ChannelId, Context, Message, ctx_localize};

verus! {

#[derive(Debug, PartialEq, Eq, Structural, Clone, Copy)]
pub enum GifSearchType {
    Trending,
    Random,
}

/// A prepared Giphy request: where to send the answer, and whether it was
/// the random endpoint.
#[derive(Debug)]
pub struct GifRequest {
    pub url: String,
    pub channel_id: ChannelId,
    pub random: bool,
}

/// Bytes that stand for themselves in a URL query component.
pub open spec fn is_unreserved(b: u8) -> bool {
    ||| 65 <= b <= 90
    ||| 97 <= b <= 122
    ||| 48 <= b <= 57
    ||| b == 45
    ||| b == 95
    ||| b == 46
    ||| b == 126
}

/// The uppercase hexadecimal digit for a value below sixteen.
pub open spec fn hex_digit(d: nat) -> char {
    if d == 0 {
        '0'
    } else if d == 1 {
        '1'
    } else if d == 2 {
        '2'
    } else if d == 3 {
        '3'
    } else if d == 4 {
        '4'
    } else if d == 5 {
        '5'
    } else if d == 6 {
        '6'
    } else if d == 7 {
        '7'
    } else if d == 8 {
        '8'
    } else if d == 9 {
        '9'
    } else if d == 10 {
        'A'
    } else if d == 11 {
        'B'
    } else if d == 12 {
        'C'
    } else if d == 13 {
        'D'
    } else if d == 14 {
        'E'
    } else {
        'F'
    }
}

/// One byte percent-encoded, or kept as itself when unreserved.
pub open spec fn pct_byte(b: u8) -> Seq<char> {
    if is_unreserved(b) {
        seq![b as char]
    } else {
        seq!['%', hex_digit(b as nat / 16), hex_digit(b as nat % 16)]
    }
}

/// A byte string percent-encoded.
pub open spec fn pct_bytes(bs: Seq<u8>) -> Seq<char>
    decreases bs.len(),
{
    if bs.len() == 0 {
        Seq::empty()
    } else {
        pct_bytes(bs.drop_last()) + pct_byte(bs.last())
    }
}

/// A text percent-encoded: its UTF-8 bytes, each unreserved byte kept,
/// every other byte written as `%` and two uppercase hex digits.
pub open spec fn pct_encode(s: Seq<char>) -> Seq<char> {
    pct_bytes(encode_utf8(s))
}

fn hex_char(d: u8) -> (c: char)
    requires
        d < 16,
    ensures
        c == hex_digit(d as nat),
{
    match d {
        0 => '0',
        1 => '1',
        2 => '2',
        3 => '3',
        4 => '4',
        5 => '5',
        6 => '6',
        7 => '7',
        8 => '8',
        9 => '9',
        10 => 'A',
        11 => 'B',
        12 => 'C',
        13 => 'D',
        14 => 'E',
        _ => 'F',
    }
}

/// Percent-encodes a query component.
pub fn percent_encode(s: &str) -> (r: String)
    ensures
        r@ == pct_encode(s@),
{
    let bytes = s.as_bytes();
    let mut out: Vec<char> = Vec::new();
    let mut i: usize = 0;
    while i < bytes.len()
        invariant
            i <= bytes@.len(),
            bytes@ == encode_utf8(s@),
            out@ == pct_bytes(bytes@.subrange(0, i as int)),
        decreases bytes@.len() - i,
    {
        let b = bytes[i];
        let unreserved = (65 <= b && b <= 90) || (97 <= b && b <= 122) || (48 <= b && b <= 57)
            || b == 45 || b == 95 || b == 46 || b == 126;
        if unreserved {
            out.push(b as char);
        } else {
            out.push('%');
            out.push(hex_char(b / 16));
            out.push(hex_char(b % 16));
        }
        proof {
            let pre = bytes@.subrange(0, i as int);
            let next = bytes@.subrange(0, i + 1);
            assert(next.drop_last() =~= pre);
            assert(next.last() == bytes@[i as int]);
            assert(out@ =~= pct_bytes(next));
        }
        i = i + 1;
    }
    assert(bytes@.subrange(0, bytes@.len() as int) =~= bytes@);
    crate::text::string_from_chars(&out)
}

/// The request URL for a gif search.
pub open spec fn gif_url(search: GifSearchType, tag: Option<Seq<char>>, key: Seq<char>) -> Seq<
    char,
> {
    let base = "https://api.giphy.com/v1/gifs/"@;
    let common = "&limit=1&rating=g&api_key="@;
    match search {
        GifSearchType::Trending => match tag {
            None => base + "trending?"@ + common + key,
            Some(t) => base + "search?q="@ + pct_encode(t) + common + key,
        },
        GifSearchType::Random => match tag {
            None => base + "random?"@ + common + key,
            Some(t) => base + "random?tag="@ + pct_encode(t) + common + key,
        },
    }
}

/// Whether a Giphy key is configured; the gif commands require one.
pub open spec fn spec_has_giphy_key(ctx: Context) -> bool {
    ctx.config matches Some(c) && c.credentials.giphy_api_key is Some
}

pub fn has_giphy_api_key_check(ctx: &Context) -> (r: bool)
    ensures
        r == spec_has_giphy_key(*ctx),
{
    match &ctx.config {
        Some(c) => c.credentials.giphy_api_key.is_some(),
        None => false,
    }
}

/// Prepares the Giphy request for a gif command: the message tail is the
/// optional tag, and the configured key must be present.
pub fn get_gif(ctx: &Context, msg: &Message, search: GifSearchType) -> (r: Result<
    GifRequest,
    HandlerError,
>)
    ensures
        match r {
            Ok(req) => ({
                &&& spec_has_giphy_key(*ctx)
                &&& ctx.config matches Some(c) && c.credentials.giphy_api_key matches Some(k)
                    && req.url@ == gif_url(search, msg_tail(*msg), k@)
                &&& req.channel_id == msg.channel_id
                &&& req.random == (search is Random)
            }),
            Err(e) => !spec_has_giphy_key(*ctx) && e == HandlerError::MissingGiphyKey,
        },
{
    let key: &String = match &ctx.config {
        Some(c) => match &c.credentials.giphy_api_key {
            Some(k) => k,
            None => {
                return Err(HandlerError::MissingGiphyKey);
            },
        },
        None => {
            return Err(HandlerError::MissingGiphyKey);
        },
    };
    let mut args = Args::new(msg.content.as_str());
    args.advance();
    let tag = args.remains();
    let mut url = String::from_str("https://api.giphy.com/v1/gifs/");
    let is_random = match search {
        GifSearchType::Trending => false,
        GifSearchType::Random => true,
    };
    match &tag {
        None => {
            if is_random {
                url.append("random?");
            } else {
                url.append("trending?");
            }
        },
        Some(t) => {
            if is_random {
                url.append("random?tag=");
            } else {
                url.append("search?q=");
            }
            let enc = percent_encode(t.as_str());
            url.append(enc.as_str());
        },
    }
    url.append("&limit=1&rating=g&api_key=");
    url.append(key.as_str());
    proof {
        assert(url@ =~= gif_url(search, msg_tail(*msg), key@));
    }
    Ok(GifRequest { url, channel_id: msg.channel_id, random: is_random })
}

/// What a parsed response means for the reply.
pub enum GifReplySpec {
    /// The found URL, sent verbatim.
    Url(Seq<char>),
    /// A localized notice, by message id.
    Notice(Seq<char>),
    /// A response the handler refuses.
    Invalid,
}

/// The reply policy over where the `url` member starts: absent or null
/// means no gif was found, a string is the answer, anything else is a
/// response the bot reports as unreadable.
pub open spec fn sp_url_class(s: Seq<char>, found: Option<int>) -> GifReplySpec {
    match found {
        None => GifReplySpec::Notice("no-gif"@),
        Some(u) => if !(0 <= u < s.len()) {
            GifReplySpec::Invalid
        } else if s[u] == 'n' {
            GifReplySpec::Notice("no-gif"@)
        } else if s[u] == '"' {
            match sp_string_body(s, u + 1) {
                Some((c, _)) => GifReplySpec::Url(c),
                None => GifReplySpec::Invalid,
            }
        } else {
            GifReplySpec::Notice("giphy-response-parsing"@)
        },
    }
}

/// The reply a response body calls for: the body must be one JSON object,
/// only its `data` path is inspected; the random endpoint carries an
/// object whose `url` is read, the others an array whose first element's
/// `url` is read, an empty array meaning no gif was found.
pub open spec fn spec_gif_outcome(s: Seq<char>, random: bool) -> GifReplySpec {
    let p0 = sp_ws(s, 0);
    if !(p0 < s.len() && s[p0] == '{') {
        GifReplySpec::Invalid
    } else if !(match sp_value_end(s, p0, spec_max_depth()) {
        Some(e) => sp_ws(s, e) == s.len(),
        None => false,
    }) {
        GifReplySpec::Invalid
    } else {
        match sp_find_member(s, sp_ws(s, p0 + 1), "data"@, (spec_max_depth() - 1) as nat) {
            Some(Some(dpos)) => if !(dpos < s.len()) {
                GifReplySpec::Invalid
            } else if random {
                if s[dpos] == '{' {
                    match sp_find_member(
                        s,
                        sp_ws(s, dpos + 1),
                        "url"@,
                        (spec_max_depth() - 2) as nat,
                    ) {
                        Some(f) => sp_url_class(s, f),
                        None => GifReplySpec::Invalid,
                    }
                } else {
                    GifReplySpec::Invalid
                }
            } else {
                if s[dpos] == '[' {
                    let q = sp_ws(s, dpos + 1);
                    if !(q < s.len()) {
                        GifReplySpec::Invalid
                    } else if s[q] == ']' {
                        GifReplySpec::Notice("no-gif"@)
                    } else if s[q] == '{' {
                        match sp_find_member(
                            s,
                            sp_ws(s, q + 1),
                            "url"@,
                            (spec_max_depth() - 2) as nat,
                        ) {
                            Some(f) => sp_url_class(s, f),
                            None => GifReplySpec::Invalid,
                        }
                    } else {
                        GifReplySpec::Invalid
                    }
                } else {
                    GifReplySpec::Invalid
                }
            },
            _ => GifReplySpec::Invalid,
        }
    }
}

/// Completes a gif command once the response body is in hand: reads the
/// URL along the `data` path and replies with it, or with the localized
/// notice the response calls for; the outcome is pinned to the body by
/// `spec_gif_outcome`.
pub fn resume_gif(ctx: &mut Context, req: &GifRequest, body: &str) -> (r: Result<
    (),
    HandlerError,
>)
    ensures
        match r {
            Ok(()) => ({
                &&& crate::commands::ctx_same_but_http(*old(ctx), *final(ctx))
                &&& match spec_gif_outcome(body@, req.random) {
                    GifReplySpec::Url(u) => http_sent_str(
                        *old(ctx),
                        *final(ctx),
                        req.channel_id.0,
                        u,
                    ),
                    GifReplySpec::Notice(id) => ctx_localize(*old(ctx), id, Seq::empty())
                        matches Some(reply) && http_sent_str(
                        *old(ctx),
                        *final(ctx),
                        req.channel_id.0,
                        reply,
                    ),
                    GifReplySpec::Invalid => false,
                }
            }),
            Err(e) => *final(ctx) == *old(ctx) && match e {
                HandlerError::GiphyResponseInvalid => spec_gif_outcome(body@, req.random)
                    is Invalid,
                HandlerError::L10N(_) => spec_gif_outcome(body@, req.random) matches
                    GifReplySpec::Notice(id) && ctx_localize(*old(ctx), id, Seq::empty())
                    is None,
                _ => false,
            },
        },
{
    let v = body_chars(body);
    let p0 = skip_ws(&v, 0);
    if p0 >= v.len() || v[p0] != '{' {
        return Err(HandlerError::GiphyResponseInvalid);
    }
    let e = match skip_value(&v, p0, 64) {
        Some(e) => e,
        None => {
            return Err(HandlerError::GiphyResponseInvalid);
        },
    };
    if skip_ws(&v, e) != v.len() {
        return Err(HandlerError::GiphyResponseInvalid);
    }
    let m0 = skip_ws(&v, p0 + 1);
    let dpos = match find_member(&v, m0, "data", 63) {
        Some(Some(d)) => d,
        _ => {
            return Err(HandlerError::GiphyResponseInvalid);
        },
    };
    let found: Option<usize> = if req.random {
        if dpos >= v.len() || v[dpos] != '{' {
            return Err(HandlerError::GiphyResponseInvalid);
        }
        let inner = skip_ws(&v, dpos + 1);
        match find_member(&v, inner, "url", 62) {
            Some(f) => f,
            None => {
                return Err(HandlerError::GiphyResponseInvalid);
            },
        }
    } else {
        if dpos >= v.len() || v[dpos] != '[' {
            return Err(HandlerError::GiphyResponseInvalid);
        }
        let q = skip_ws(&v, dpos + 1);
        if q >= v.len() {
            return Err(HandlerError::GiphyResponseInvalid);
        }
        if v[q] == ']' {
            None
        } else if v[q] == '{' {
            let inner = skip_ws(&v, q + 1);
            match find_member(&v, inner, "url", 62) {
                Some(f) => f,
                None => {
                    return Err(HandlerError::GiphyResponseInvalid);
                },
            }
        } else {
            return Err(HandlerError::GiphyResponseInvalid);
        }
    };
    let reply: String = match found {
        None => {
            match ctx.localize_msg("no-gif", None) {
                Ok(s) => s,
                Err(le) => {
                    return Err(HandlerError::L10N(le));
                },
            }
        },
        Some(u) => {
            if u >= v.len() {
                return Err(HandlerError::GiphyResponseInvalid);
            }
            if v[u] == 'n' {
                match ctx.localize_msg("no-gif", None) {
                    Ok(s) => s,
                    Err(le) => {
                        return Err(HandlerError::L10N(le));
                    },
                }
            } else if v[u] == '"' {
                match parse_string_body(&v, u + 1) {
                    Some((content, _)) => crate::text::string_from_chars(&content),
                    None => {
                        return Err(HandlerError::GiphyResponseInvalid);
                    },
                }
            } else {
                match ctx.localize_msg("giphy-response-parsing", None) {
                    Ok(s) => s,
                    Err(le) => {
                        return Err(HandlerError::L10N(le));
                    },
                }
            }
        },
    };
    let ghost mid = *ctx;
    req.channel_id.say(&mut ctx.http, reply);
    proof {
        assert(ctx.http.sent@.subrange(0, mid.http.sent@.len() as int) =~= mid.http.sent@);
    }
    Ok(())
}

} // verus!
