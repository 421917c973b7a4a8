//! The argument tokenizer: walks a raw message body split on single spaces,
//! handing out one token at a time while keeping the free-form tail intact.

use vstd::prelude::*;
use crate::text::{chars_of, string_from_chars, subchars, parse_dec_u64, spec_parse_nat, str_eq};

verus! {

/// First position at or after `pos` holding a space, or the length.
pub open spec fn find_space(s: Seq<char>, pos: int) -> int
    decreases s.len() - pos,
{
    if pos < 0 || pos >= s.len() {
        s.len() as int
    } else if s[pos] == ' ' {
        pos
    } else {
        find_space(s, pos + 1)
    }
}

/// The position after skipping the token at `pos` and its delimiter.
pub open spec fn after_token(s: Seq<char>, pos: int) -> int {
    if find_space(s, pos) < s.len() {
        find_space(s, pos) + 1
    } else {
        s.len() as int
    }
}

/// The token beginning at `pos`.
pub open spec fn token_at(s: Seq<char>, pos: int) -> Seq<char> {
    s.subrange(pos, find_space(s, pos))
}

/// How many tokens remain from `pos` on.
pub open spec fn token_count(s: Seq<char>, pos: int) -> nat
    decreases s.len() - pos,
    via token_count_decreases
{
    if pos < 0 || pos >= s.len() {
        0
    } else {
        1 + token_count(s, after_token(s, pos))
    }
}

#[via_fn]
proof fn token_count_decreases(s: Seq<char>, pos: int) {
    if 0 <= pos && pos < s.len() {
        lemma_find_space_range(s, pos);
    }
}

pub proof fn lemma_find_space_range(s: Seq<char>, pos: int)
    requires
        0 <= pos <= s.len(),
    ensures
        pos <= find_space(s, pos) <= s.len(),
    decreases s.len() - pos,
{
    if pos < s.len() && s[pos] != ' ' {
        lemma_find_space_range(s, pos + 1);
    }
}

/// A cursor over the space-delimited tokens of a message body.
pub struct Args {
    chars: Vec<char>,
    pos: usize,
}

impl Args {
    /// The characters being walked.
    pub closed spec fn text(&self) -> Seq<char> {
        self.chars@
    }

    /// The current position.
    pub closed spec fn at(&self) -> int {
        self.pos as int
    }

    pub open spec fn wf(&self) -> bool {
        0 <= self.at() <= self.text().len()
    }

    pub fn new(content: &str) -> (r: Args)
        ensures
            r.text() == content@,
            r.at() == 0,
            r.wf(),
    {
        Args { chars: chars_of(content), pos: 0 }
    }

    /// Position of the next space at or after `pos`, or the end.
    fn scan_space(&self) -> (r: usize)
        requires
            self.wf(),
        ensures
            r == find_space(self.text(), self.at()),
            self.at() <= r <= self.text().len(),
    {
        let mut i: usize = self.pos;
        while i < self.chars.len() && self.chars[i] != ' '
            invariant
                self.pos <= i <= self.chars@.len(),
                find_space(self.chars@, self.pos as int) == find_space(self.chars@, i as int),
            decreases self.chars@.len() - i,
        {
            i = i + 1;
        }
        i
    }

    /// Discards the next token; does nothing when exhausted.
    pub fn advance(&mut self)
        requires
            old(self).wf(),
        ensures
            final(self).text() == old(self).text(),
            final(self).at() == after_token(old(self).text(), old(self).at()),
            final(self).wf(),
    {
        let sp = self.scan_space();
        if sp < self.chars.len() {
            self.pos = sp + 1;
        } else {
            self.pos = self.chars.len();
        }
    }

    /// The rest of the text from the current position, verbatim; `None`
    /// when nothing remains.
    pub fn remains(&self) -> (r: Option<String>)
        requires
            self.wf(),
        ensures
            match r {
                Some(s) => self.at() < self.text().len() && s@ == self.text().subrange(
                    self.at(),
                    self.text().len() as int,
                ),
                None => self.at() >= self.text().len(),
            },
    {
        if self.pos < self.chars.len() {
            let rest = subchars(&self.chars, self.pos, self.chars.len());
            Some(string_from_chars(&rest))
        } else {
            None
        }
    }

    /// How many tokens remain.
    pub fn count_remaining(&self) -> (r: usize)
        requires
            self.wf(),
        ensures
            r == token_count(self.text(), self.at()),
    {
        let mut n: usize = 0;
        let mut i: usize = self.pos;
        while i < self.chars.len()
            invariant
                self.pos <= i <= self.chars@.len(),
                n <= i,
                token_count(self.chars@, self.pos as int) == n + token_count(
                    self.chars@,
                    i as int,
                ),
            decreases self.chars@.len() - i,
        {
            let probe = Args { chars: subchars(&self.chars, 0, self.chars.len()), pos: i };
            assert(probe.text() =~= self.chars@);
            let sp = probe.scan_space();
            let next: usize = if sp < self.chars.len() {
                sp + 1
            } else {
                self.chars.len()
            };
            proof {
                lemma_find_space_range(self.chars@, i as int);
            }
            assert(next == after_token(self.chars@, i as int));
            n = n + 1;
            i = next;
        }
        n
    }

    /// The next token, resolved as a reference: a decimal id stands for
    /// itself, any other text is looked up in the directory.
    pub fn parse_ref(&self, directory: &Vec<(String, u64)>) -> (r: Option<u64>)
        requires
            self.wf(),
        ensures
            r == spec_resolve_ref(
                token_at(self.text(), self.at()),
                directory@.map_values(|p: (String, u64)| (p.0@, p.1)),
            ),
    {
        let sp = self.scan_space();
        let token = subchars(&self.chars, self.pos, sp);
        proof {
            assert(token@ =~= token_at(self.text(), self.at()));
        }
        match parse_dec_u64(&token, 0, token.len()) {
            Some(x) => {
                proof {
                    assert(token@.subrange(0, token@.len() as int) =~= token@);
                }
                Some(x)
            },
            None => {
                proof {
                    assert(token@.subrange(0, token@.len() as int) =~= token@);
                }
                let ghost dir = directory@.map_values(|p: (String, u64)| (p.0@, p.1));
                let token_str = string_from_chars(&token);
                let mut i: usize = 0;
                proof {
                    assert(dir.skip(0) =~= dir);
                }
                while i < directory.len()
                    invariant
                        i <= directory@.len(),
                        dir == directory@.map_values(|p: (String, u64)| (p.0@, p.1)),
                        token_str@ == token_at(self.text(), self.at()),
                        spec_parse_nat(token_str@) is None || digits_too_big(token_str@),
                        spec_lookup_dir(dir, token_str@) == spec_lookup_dir(
                            dir.skip(i as int),
                            token_str@,
                        ),
                    decreases directory@.len() - i,
                {
                    proof {
                        assert(dir.skip(i as int)[0] == dir[i as int]);
                        assert(dir[i as int] == (directory@[i as int].0@, directory@[i as int].1));
                        assert(dir.skip(i as int).skip(1) =~= dir.skip(i + 1));
                    }
                    let entry = &directory[i];
                    if str_eq(entry.0.as_str(), token_str.as_str()) {
                        return Some(entry.1);
                    }
                    i = i + 1;
                }
                None
            },
        }
    }
}

/// True when a digit string's value exceeds `u64::MAX`.
pub open spec fn digits_too_big(s: Seq<char>) -> bool {
    match spec_parse_nat(s) {
        Some(k) => k > u64::MAX,
        None => false,
    }
}

/// First directory entry for a name, if any.
pub open spec fn spec_lookup_dir(dir: Seq<(Seq<char>, u64)>, name: Seq<char>) -> Option<u64>
    decreases dir.len(),
{
    if dir.len() == 0 {
        None
    } else if dir[0].0 == name {
        Some(dir[0].1)
    } else {
        spec_lookup_dir(dir.skip(1), name)
    }
}

/// What a reference token resolves to: its own value when it is a plain
/// decimal id that fits, else its directory entry.
pub open spec fn spec_resolve_ref(token: Seq<char>, dir: Seq<(Seq<char>, u64)>) -> Option<u64> {
    match spec_parse_nat(token) {
        Some(k) => if k <= u64::MAX {
            Some(k as u64)
        } else {
            spec_lookup_dir(dir, token)
        },
        None => spec_lookup_dir(dir, token),
    }
}

} // verus!
