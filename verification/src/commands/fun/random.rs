//! The chance-based commands: `flipcoin` and `roll`, with the dice-roll
//! request parser and the rendering of roll results.

use vstd::prelude::*;
use crate::arguments::Args;
use crate::commands::HandlerError;
use crate::commands::owner::msg_tail;
use crate::localization::{spec_attr_format, spec_format, spec_lookup_msg};
use crate::rng::RandomSource;
use crate::text::{
    dec_digits,
    digit_run_end,
    dec_int,
    chars_of,
    parse_dec_u64,
    parse_dec_i64,
    spec_parse_nat,
    spec_parse_int,
    string_from_chars,
};
use crate::transport::{Context, Message};
use crate::util::{BoundedInteger, BoundedIntegerError};

verus! {

#[derive(Debug, PartialEq)]
pub enum DiceRollParseError {
    MissingD,
    InvalidDiceNum(String),
    InvalidSidesNum(String),
    InvalidModifier(String),
    OutOfBoundDiceNum(BoundedIntegerError),
    OutOfBoundSidesNum(BoundedIntegerError),
    OutOfBoundModifier(BoundedIntegerError),
}

/// What a roll request text means.
pub enum RollOutcome {
    /// A well-formed request.
    Roll { dice: nat, sides: nat, modifier: Option<int> },
    /// Zero dice were asked for.
    NoDie,
    /// Zero sides were asked for.
    NoSide,
    /// Anything else that does not parse or lies out of bounds.
    Bad,
}

/// First position at or after `pos` holding `d`, or the length.
pub open spec fn find_d(s: Seq<char>, pos: int) -> int
    decreases s.len() - pos,
{
    if pos < 0 || pos >= s.len() {
        s.len() as int
    } else if s[pos] == 'd' {
        pos
    } else {
        find_d(s, pos + 1)
    }
}

/// A non-negative number as `str::parse` reads it for an unsigned type:
/// one optional leading `+`, then at least one digit.
pub open spec fn spec_parse_unsigned(s: Seq<char>) -> Option<nat> {
    if s.len() > 0 && s[0] == '+' {
        spec_parse_nat(s.skip(1))
    } else {
        spec_parse_nat(s)
    }
}

/// The meaning of a roll request: find the `d`; the optional dice count
/// before it and the digit run after it must parse as 16-bit numbers (the
/// count may carry one leading `+`), the optional suffix as a 16-bit
/// signed modifier; then the modifier must lie in `[-255, 255]` and dice
/// and sides in `[1, 255]`, a zero count or a zero side being reported on
/// its own.
pub open spec fn spec_roll_outcome(s: Seq<char>) -> RollOutcome {
    let di = find_d(s, 0);
    if di >= s.len() {
        RollOutcome::Bad
    } else {
        let dice_opt: Option<nat> = if di > 0 {
            match spec_parse_unsigned(s.subrange(0, di)) {
                Some(k) => if k <= u16::MAX {
                    Some(k)
                } else {
                    None
                },
                None => None,
            }
        } else {
            Some(1)
        };
        match dice_opt {
            None => RollOutcome::Bad,
            Some(dice) => {
                let se = digit_run_end(s, di + 1);
                match spec_parse_nat(s.subrange(di + 1, se)) {
                    None => RollOutcome::Bad,
                    Some(sides) => if sides > u16::MAX {
                        RollOutcome::Bad
                    } else {
                        let modifier: Option<Option<int>> = if se < s.len() {
                            match spec_parse_int(s.subrange(se, s.len() as int)) {
                                Some(m) => if i16::MIN <= m <= i16::MAX {
                                    Some(Some(m))
                                } else {
                                    None
                                },
                                None => None,
                            }
                        } else {
                            Some(None)
                        };
                        match modifier {
                            None => RollOutcome::Bad,
                            Some(m) => if m matches Some(mv) && !(-255 <= mv <= 255) {
                                RollOutcome::Bad
                            } else if dice == 0 {
                                RollOutcome::NoDie
                            } else if dice > 255 {
                                RollOutcome::Bad
                            } else if sides == 0 {
                                RollOutcome::NoSide
                            } else if sides > 255 {
                                RollOutcome::Bad
                            } else {
                                RollOutcome::Roll { dice, sides, modifier: m }
                            },
                        }
                    },
                }
            },
        }
    }
}

/// The dice-count text before the `d` fails its 16-bit parse.
pub open spec fn dice_text_bad(s: Seq<char>) -> bool {
    let di = find_d(s, 0);
    di > 0 && match spec_parse_unsigned(s.subrange(0, di)) {
        Some(k) => k > u16::MAX,
        None => true,
    }
}

/// The digit run after the `d` fails its 16-bit parse.
pub open spec fn sides_text_bad(s: Seq<char>) -> bool {
    let di = find_d(s, 0);
    let se = digit_run_end(s, di + 1);
    match spec_parse_nat(s.subrange(di + 1, se)) {
        Some(k) => k > u16::MAX,
        None => true,
    }
}

/// The suffix after the sides fails its 16-bit signed parse.
pub open spec fn modifier_text_bad(s: Seq<char>) -> bool {
    let di = find_d(s, 0);
    let se = digit_run_end(s, di + 1);
    se < s.len() && match spec_parse_int(s.subrange(se, s.len() as int)) {
        Some(m) => m < i16::MIN || m > i16::MAX,
        None => true,
    }
}

/// A dice-roll request whose three numbers have been checked against their
/// bounds.
#[derive(Debug)]
pub struct DiceRoll {
    dice: BoundedInteger,
    sides: BoundedInteger,
    modifier: Option<BoundedInteger>,
}

impl DiceRoll {
    pub closed spec fn spec_dice(&self) -> int {
        self.dice.spec_value()
    }

    pub closed spec fn spec_sides(&self) -> int {
        self.sides.spec_value()
    }

    pub closed spec fn spec_modifier(&self) -> Option<int> {
        match self.modifier {
            Some(m) => Some(m.spec_value()),
            None => None,
        }
    }

    pub closed spec fn wf(&self) -> bool {
        &&& 1 <= self.spec_dice() <= 255
        &&& 1 <= self.spec_sides() <= 255
        &&& self.spec_modifier() matches Some(m) ==> -255 <= m <= 255
    }

    /// Checks the three numbers: the modifier first against `[-255, 255]`,
    /// then the dice count and the side count against `[1, 255]`.
    pub fn new(dice: u16, sides: u16, modifier: Option<i16>) -> (r: Result<
        Self,
        DiceRollParseError,
    >)
        ensures
            match r {
                Ok(d) => {
                    &&& (modifier matches Some(m) ==> -255 <= m <= 255)
                    &&& 1 <= dice <= 255
                    &&& 1 <= sides <= 255
                    &&& d.spec_dice() == dice
                    &&& d.spec_sides() == sides
                    &&& (match (d.spec_modifier(), modifier) {
                        (Some(a), Some(b)) => a == b,
                        (None, None) => true,
                        _ => false,
                    })
                    &&& d.wf()
                },
                Err(DiceRollParseError::OutOfBoundModifier(e)) => modifier matches Some(m) && !(
                -255 <= m <= 255) && (e matches BoundedIntegerError::TooSmall(_) || e matches
                    BoundedIntegerError::TooBig(_)),
                Err(DiceRollParseError::OutOfBoundDiceNum(e)) => ({
                    &&& (modifier matches Some(m) ==> -255 <= m <= 255)
                    &&& !(1 <= dice <= 255)
                    &&& (dice == 0 <==> e matches BoundedIntegerError::TooSmall(_))
                }),
                Err(DiceRollParseError::OutOfBoundSidesNum(e)) => ({
                    &&& (modifier matches Some(m) ==> -255 <= m <= 255)
                    &&& 1 <= dice <= 255
                    &&& !(1 <= sides <= 255)
                    &&& (sides == 0 <==> e matches BoundedIntegerError::TooSmall(_))
                }),
                Err(_) => false,
            },
    {
        let modifier = match modifier {
            Some(m) => {
                match BoundedInteger::new(m as i64, -255, 255) {
                    Ok(b) => Some(b),
                    Err(e) => {
                        return Err(DiceRollParseError::OutOfBoundModifier(e));
                    },
                }
            },
            None => None,
        };
        let dice = match BoundedInteger::new(dice as i64, 1, 255) {
            Ok(b) => b,
            Err(e) => {
                return Err(DiceRollParseError::OutOfBoundDiceNum(e));
            },
        };
        let sides = match BoundedInteger::new(sides as i64, 1, 255) {
            Ok(b) => b,
            Err(e) => {
                return Err(DiceRollParseError::OutOfBoundSidesNum(e));
            },
        };
        Ok(Self { dice, sides, modifier })
    }

    /// Parses a roll request; the grammar is the one `spec_roll_outcome`
    /// gives meaning to.
    pub fn from_str(s: &str) -> (r: Result<Self, DiceRollParseError>)
        ensures
            match r {
                Ok(d) => spec_roll_outcome(s@) matches RollOutcome::Roll {
                    dice,
                    sides,
                    modifier,
                } && d.spec_dice() == dice && d.spec_sides() == sides && d.spec_modifier()
                    == modifier && d.wf(),
                Err(e) => (match spec_roll_outcome(s@) {
                    RollOutcome::Roll { .. } => false,
                    RollOutcome::NoDie => e matches DiceRollParseError::OutOfBoundDiceNum(b) && b
                        matches BoundedIntegerError::TooSmall(_),
                    RollOutcome::NoSide => e matches DiceRollParseError::OutOfBoundSidesNum(b)
                        && b matches BoundedIntegerError::TooSmall(_),
                    RollOutcome::Bad => !(e matches DiceRollParseError::OutOfBoundDiceNum(b) && b
                        matches BoundedIntegerError::TooSmall(_)) && !(e matches
                        DiceRollParseError::OutOfBoundSidesNum(b2) && b2 matches
                        BoundedIntegerError::TooSmall(_)),
                }) && (match e {
                    DiceRollParseError::MissingD => find_d(s@, 0) >= s@.len(),
                    DiceRollParseError::InvalidDiceNum(t) => find_d(s@, 0) < s@.len()
                        && dice_text_bad(s@) && t@ == s@.subrange(0, find_d(s@, 0)),
                    DiceRollParseError::InvalidSidesNum(t) => find_d(s@, 0) < s@.len()
                        && !dice_text_bad(s@) && sides_text_bad(s@) && t@ == s@.subrange(
                        find_d(s@, 0) + 1,
                        digit_run_end(s@, find_d(s@, 0) + 1),
                    ),
                    DiceRollParseError::InvalidModifier(t) => find_d(s@, 0) < s@.len()
                        && !dice_text_bad(s@) && !sides_text_bad(s@) && modifier_text_bad(s@)
                        && t@ == s@.subrange(
                        digit_run_end(s@, find_d(s@, 0) + 1),
                        s@.len() as int,
                    ),
                    DiceRollParseError::OutOfBoundModifier(_) => find_d(s@, 0) < s@.len()
                        && !dice_text_bad(s@) && !sides_text_bad(s@) && !modifier_text_bad(s@),
                    DiceRollParseError::OutOfBoundDiceNum(_) => find_d(s@, 0) < s@.len()
                        && !dice_text_bad(s@) && !sides_text_bad(s@) && !modifier_text_bad(s@),
                    DiceRollParseError::OutOfBoundSidesNum(_) => find_d(s@, 0) < s@.len()
                        && !dice_text_bad(s@) && !sides_text_bad(s@) && !modifier_text_bad(s@),
                }),
            },
    {
        let v = chars_of(s);
        let mut di: usize = 0;
        while di < v.len() && v[di] != 'd'
            invariant
                0 <= di <= v@.len(),
                v@ == s@,
                find_d(s@, 0) == find_d(s@, di as int),
            decreases v@.len() - di,
        {
            di = di + 1;
        }
        if di >= v.len() {
            return Err(DiceRollParseError::MissingD);
        }
        let dice: u16 = if di > 0 {
            let dice_start: usize = if v[0] == '+' {
                1
            } else {
                0
            };
            proof {
                if v@[0] == '+' {
                    assert(v@.subrange(0, di as int).skip(1) =~= v@.subrange(1, di as int));
                }
            }
            match parse_dec_u64(&v, dice_start, di) {
                Some(x) => {
                    if x <= u16::MAX as u64 {
                        x as u16
                    } else {
                        let part = crate::text::subchars(&v, 0, di);
                        return Err(DiceRollParseError::InvalidDiceNum(string_from_chars(&part)));
                    }
                },
                None => {
                    let part = crate::text::subchars(&v, 0, di);
                    return Err(DiceRollParseError::InvalidDiceNum(string_from_chars(&part)));
                },
            }
        } else {
            1
        };
        let mut se: usize = di + 1;
        while se < v.len() && '0' <= v[se] && v[se] <= '9'
            invariant
                di + 1 <= se <= v@.len(),
                v@ == s@,
                digit_run_end(s@, di + 1) == digit_run_end(s@, se as int),
            decreases v@.len() - se,
        {
            se = se + 1;
        }
        let sides: u16 = match parse_dec_u64(&v, di + 1, se) {
            Some(x) => {
                if x <= u16::MAX as u64 {
                    x as u16
                } else {
                    let part = crate::text::subchars(&v, di + 1, se);
                    return Err(DiceRollParseError::InvalidSidesNum(string_from_chars(&part)));
                }
            },
            None => {
                let part = crate::text::subchars(&v, di + 1, se);
                return Err(DiceRollParseError::InvalidSidesNum(string_from_chars(&part)));
            },
        };
        let modifier: Option<i16> = if se < v.len() {
            match parse_dec_i64(&v, se, v.len()) {
                Some(x) => {
                    if i16::MIN as i64 <= x && x <= i16::MAX as i64 {
                        Some(x as i16)
                    } else {
                        let part = crate::text::subchars(&v, se, v.len());
                        return Err(DiceRollParseError::InvalidModifier(string_from_chars(&part)));
                    }
                },
                None => {
                    let part = crate::text::subchars(&v, se, v.len());
                    return Err(DiceRollParseError::InvalidModifier(string_from_chars(&part)));
                },
            }
        } else {
            None
        };
        Self::new(dice, sides, modifier)
    }

    /// Draws the dice through the given source.
    pub fn roll(&self, random: &mut RandomSource) -> (r: DiceRollResult)
        requires
            self.wf(),
        ensures
            r.rolls@.len() == self.spec_dice(),
            forall|i: int|
                0 <= i < r.rolls@.len() ==> 1 <= #[trigger] r.rolls@[i] <= self.spec_sides(),
            (match (r.modifier, self.spec_modifier()) {
                (Some(a), Some(b)) => a.spec_value() == b,
                (None, None) => true,
                _ => false,
            }),
            r.sum == sum_rolls(r.rolls@) + (match self.spec_modifier() {
                Some(m) => m,
                None => 0int,
            }),
            match *old(random) {
                RandomSource::Scripted { values, next } => values@.len() > 0 ==> (forall|i: int|
                    0 <= i < r.rolls@.len() ==> #[trigger] r.rolls@[i]
                        == crate::rng::scripted_roll(
                        values@,
                        next as int + i,
                        self.spec_sides(),
                    )) && (*final(random) matches RandomSource::Scripted { values: v2, next: n2 }
                    && v2 == values && n2 as int == (next as int + self.spec_dice()) % (
                values@.len() as int)),
                RandomSource::System => *final(random) == *old(random),
            },
    {
        let ghost scripted: bool = match *old(random) {
            RandomSource::Scripted { values, next } => values@.len() > 0,
            RandomSource::System => false,
        };
        let ghost values0: Seq<u64> = match *old(random) {
            RandomSource::Scripted { values, next } => values@,
            RandomSource::System => Seq::empty(),
        };
        let ghost next0: int = match *old(random) {
            RandomSource::Scripted { values, next } => next as int,
            RandomSource::System => 0,
        };
        let mut results: Vec<u32> = Vec::new();
        let dice: u16 = self.dice.value() as u16;
        let sides: u16 = self.sides.value() as u16;
        let mut i: u16 = 0;
        let mut total: u32 = 0;
        while i < dice
            invariant
                0 <= i <= dice,
                1 <= sides <= 255,
                dice == self.spec_dice(),
                sides == self.spec_sides(),
                results@.len() == i,
                forall|j: int|
                    0 <= j < results@.len() ==> 1 <= #[trigger] results@[j] <= sides as u32,
                total == sum_rolls(results@),
                total <= i as u32 * 255,
                scripted == (match *old(random) {
                    RandomSource::Scripted { values, next } => values@.len() > 0,
                    RandomSource::System => false,
                }),
                0 <= next0,
                scripted ==> (match (*old(random), *random) {
                    (
                        RandomSource::Scripted { values: v0, next: n0 },
                        RandomSource::Scripted { values: v1, next: n1 },
                    ) => v1 == v0 && v0@ == values0 && n0 as int == next0 && values0.len() > 0
                        && n1 as int == (if i == 0 {
                        next0
                    } else {
                        (next0 + i as int) % (values0.len() as int)
                    }),
                    _ => false,
                }),
                scripted ==> (forall|j: int|
                    0 <= j < results@.len() ==> #[trigger] results@[j]
                        == crate::rng::scripted_roll(values0, next0 + j, sides as int)),
                !scripted ==> *random == *old(random),
            decreases dice - i,
        {
            let ghost ni: int = match *random {
                RandomSource::Scripted { next, .. } => next as int,
                RandomSource::System => 0,
            };
            proof {
                if scripted {
                    assert(values0.len() > 0);
                    assert(ni == (if i == 0 {
                        next0
                    } else {
                        (next0 + i as int) % (values0.len() as int)
                    }));
                }
            }
            let d = random.die(sides);
            proof {
                if scripted {
                    let len = values0.len() as int;
                    crate::rng::lemma_advanced_is_add(ni, len);
                    crate::rng::lemma_advanced_is_add(next0 + i as int, len);
                    if i > 0 {
                        vstd::arithmetic::div_mod::lemma_mod_bound(next0 + i as int, len);
                        vstd::arithmetic::div_mod::lemma_small_mod(ni as nat, len as nat);
                    }
                    assert(crate::rng::scripted_at(values0, ni) == crate::rng::scripted_at(
                        values0,
                        next0 + i as int,
                    ));
                    assert(d == crate::rng::scripted_roll(values0, next0 + i as int, sides as int));
                    assert(crate::rng::advanced(ni, len) == (next0 + i as int + 1) % len);
                }
            }
            let ghost prev = results@;
            results.push(d);
            proof {
                assert(results@.drop_last() =~= prev);
                assert(i as u32 * 255 + 255 == (i + 1) as u32 * 255) by (nonlinear_arith);
            }
            total = total + d;
            i = i + 1;
        }
        let modifier_value: i32 = match &self.modifier {
            Some(m) => m.value() as i32,
            None => 0,
        };
        let sum: i32 = total as i32 + modifier_value;
        DiceRollResult { rolls: results, modifier: self.modifier, sum }
    }
}

/// The sum of a sequence of rolls.
pub open spec fn sum_rolls(s: Seq<u32>) -> int
    decreases s.len(),
{
    if s.len() == 0 {
        0
    } else {
        sum_rolls(s.drop_last()) + s.last()
    }
}

/// The outcome of rolling: the individual rolls, the modifier, and the
/// total.
#[derive(Debug)]
pub struct DiceRollResult {
    pub rolls: Vec<u32>,
    pub modifier: Option<BoundedInteger>,
    pub sum: i32,
}

/// How many rolls are written out before the list is cut off.
pub open spec fn max_shown_rolls() -> int {
    30
}

/// The first `n` rolls written out, separated by ` + `.
pub open spec fn rolls_disp_upto(rolls: Seq<u32>, n: int) -> Seq<char>
    decreases n,
{
    if n <= 1 {
        dec_digits(rolls[0] as nat)
    } else {
        rolls_disp_upto(rolls, n - 1) + " + "@ + dec_digits(rolls[n - 1] as nat)
    }
}

/// The displayed roll list: at most thirty rolls, with `...` marking a cut.
pub open spec fn rolls_display(rolls: Seq<u32>) -> Seq<char> {
    if rolls.len() > max_shown_rolls() {
        rolls_disp_upto(rolls, max_shown_rolls()) + "..."@
    } else {
        rolls_disp_upto(rolls, rolls.len() as int)
    }
}

/// How often a character occurs in a text.
pub open spec fn count_char(s: Seq<char>, c: char) -> nat
    decreases s.len(),
{
    if s.len() == 0 {
        0
    } else {
        count_char(s.drop_last(), c) + (if s.last() == c {
            1nat
        } else {
            0nat
        })
    }
}

proof fn lemma_count_concat(a: Seq<char>, b: Seq<char>, c: char)
    ensures
        count_char(a + b, c) == count_char(a, c) + count_char(b, c),
    decreases b.len(),
{
    if b.len() == 0 {
        assert(a + b =~= a);
    } else {
        assert((a + b).drop_last() =~= a + b.drop_last());
        assert((a + b).last() == b.last());
        lemma_count_concat(a, b.drop_last(), c);
    }
}

proof fn lemma_digits_no_plus(n: nat)
    ensures
        count_char(dec_digits(n), '+') == 0,
    decreases n,
{
    if n < 10 {
        assert(dec_digits(n) =~= seq![crate::text::digit_char(n)]);
        assert(seq![crate::text::digit_char(n)].drop_last() =~= Seq::<char>::empty());
        assert(crate::text::digit_char(n) != '+');
        assert(count_char(Seq::<char>::empty(), '+') == 0);
        assert(count_char(seq![crate::text::digit_char(n)], '+') == 0);
    } else {
        lemma_digits_no_plus(n / 10);
        assert(dec_digits(n).drop_last() =~= dec_digits(n / 10));
        assert(dec_digits(n).last() == crate::text::digit_char(n % 10));
        assert(crate::text::digit_char(n % 10) != '+');
    }
}

proof fn lemma_upto_plus_count(rolls: Seq<u32>, n: int)
    requires
        1 <= n,
    ensures
        count_char(rolls_disp_upto(rolls, n), '+') == n - 1,
    decreases n,
{
    if n <= 1 {
        lemma_digits_no_plus(rolls[0] as nat);
    } else {
        lemma_upto_plus_count(rolls, n - 1);
        lemma_count_concat(rolls_disp_upto(rolls, n - 1), " + "@, '+');
        lemma_count_concat(
            rolls_disp_upto(rolls, n - 1) + " + "@,
            dec_digits(rolls[n - 1] as nat),
            '+',
        );
        lemma_digits_no_plus(rolls[n - 1] as nat);
        assert(count_char(" + "@, '+') == 1) by {
            reveal_strlit(" + ");
            assert(" + "@ =~= seq![' ', '+', ' ']);
            assert(count_char(Seq::<char>::empty(), '+') == 0);
            assert(seq![' '].drop_last() =~= Seq::<char>::empty());
            assert(count_char(seq![' '], '+') == 0);
            assert(seq![' ', '+'].drop_last() =~= seq![' ']);
            assert(seq![' ', '+'].last() == '+');
            assert(count_char(seq![' ', '+'], '+') == 1);
            assert(seq![' ', '+', ' '].drop_last() =~= seq![' ', '+']);
            assert(count_char(seq![' ', '+', ' '], '+') == 1);
        }
    }
}

/// The displayed roll list is cut at thirty entries: with more rolls than
/// that, exactly thirty terms are written (so twenty-nine ` + ` separators
/// stand between them) and `...` closes the list; with at most thirty,
/// every roll is written and nothing is cut.
pub proof fn lemma_display_truncation(rolls: Seq<u32>)
    requires
        rolls.len() >= 1,
    ensures
        rolls.len() > 30 ==> rolls_display(rolls) == rolls_disp_upto(rolls, 30) + "..."@
            && count_char(rolls_disp_upto(rolls, 30), '+') == 29,
        rolls.len() <= 30 ==> rolls_display(rolls) == rolls_disp_upto(
            rolls,
            rolls.len() as int,
        ) && count_char(rolls_display(rolls), '+') == rolls.len() - 1,
{
    if rolls.len() > 30 {
        lemma_upto_plus_count(rolls, 30);
    } else {
        lemma_upto_plus_count(rolls, rolls.len() as int);
    }
}

/// The rendered result: the parenthesized roll list, the modifier when one
/// was given, and the total.
pub open spec fn spec_render(res: DiceRollResult) -> Seq<char> {
    "("@ + rolls_display(res.rolls@) + (match res.modifier {
        Some(m) => ") + "@ + dec_int(m.spec_value()) + " = "@,
        None => ") = "@
    }) + dec_int(res.sum as int)
}

impl DiceRollResult {
    /// Writes the result out; at least one roll must be present, as every
    /// produced result guarantees.
    pub fn render(&self) -> (r: String)
        requires
            self.rolls@.len() >= 1,
        ensures
            r@ == spec_render(*self),
    {
        proof {
            reveal_strlit("(");
            reveal_strlit(" + ");
            reveal_strlit("...");
            reveal_strlit(") + ");
            reveal_strlit(" = ");
            reveal_strlit(") = ");
        }
        let mut out: Vec<char> = Vec::new();
        out.push('(');
        let shown: usize = if self.rolls.len() > 30 {
            30
        } else {
            self.rolls.len()
        };
        crate::text::push_dec_u64(self.rolls[0] as u64, &mut out);
        proof {
            reveal_strlit("(");
            assert(out@ =~= "("@ + rolls_disp_upto(self.rolls@, 1));
        }
        let mut i: usize = 1;
        while i < shown
            invariant
                1 <= i <= shown,
                shown <= self.rolls@.len(),
                shown == (if self.rolls@.len() > 30 {
                    30int
                } else {
                    self.rolls@.len() as int
                }),
                out@ == "("@ + rolls_disp_upto(self.rolls@, i as int),
            decreases shown - i,
        {
            let ghost pre = out@;
            out.push(' ');
            out.push('+');
            out.push(' ');
            crate::text::push_dec_u64(self.rolls[i] as u64, &mut out);
            proof {
                reveal_strlit(" + ");
                assert(out@ =~= pre + " + "@ + dec_digits(self.rolls@[i as int] as nat));
                assert(rolls_disp_upto(self.rolls@, i + 1) == rolls_disp_upto(self.rolls@, i as int)
                    + " + "@ + dec_digits(self.rolls@[i as int] as nat));
                assert(out@ =~= "("@ + rolls_disp_upto(self.rolls@, i + 1));
            }
            i = i + 1;
        }
        if self.rolls.len() > 30 {
            out.push('.');
            out.push('.');
            out.push('.');
            proof {
                reveal_strlit("...");
                assert(out@ =~= "("@ + rolls_display(self.rolls@));
            }
        } else {
            assert(out@ =~= "("@ + rolls_display(self.rolls@));
        }
        match &self.modifier {
            Some(m) => {
                out.push(')');
                out.push(' ');
                out.push('+');
                out.push(' ');
                crate::text::push_dec_i64(m.value(), &mut out);
                out.push(' ');
                out.push('=');
                out.push(' ');
            },
            None => {
                out.push(')');
                out.push(' ');
                out.push('=');
                out.push(' ');
            },
        }
        crate::text::push_dec_i64(self.sum as i64, &mut out);
        proof {
            reveal_strlit("(");
            reveal_strlit(") + ");
            reveal_strlit(" = ");
            reveal_strlit(") = ");
            assert(out@ =~= spec_render(*self));
        }
        string_from_chars(&out)
    }
}

/// How one draw changes a random source: the system source and an empty
/// script are unchanged, a non-empty script advances in its cycle.
pub open spec fn rand_stepped(a: RandomSource, b: RandomSource) -> bool {
    match a {
        RandomSource::System => b == a,
        RandomSource::Scripted { values, next } => if values@.len() == 0 {
            b == a
        } else {
            b == (RandomSource::Scripted {
                values,
                next: crate::rng::advanced(next as int, values@.len() as int) as usize,
            })
        },
    }
}

/// The bit a source will yield, when that is determined.
pub open spec fn flip_bit(r: RandomSource) -> Option<bool> {
    match r {
        RandomSource::System => None,
        RandomSource::Scripted { values, next } => if values@.len() == 0 {
            Some(false)
        } else {
            Some(crate::rng::scripted_at(values@, next as int) != 0)
        },
    }
}

/// The coin-flip reply for a given bit: the `flipcoin` message's value,
/// with the `side` argument set to its `tails` attribute for a set bit and
/// its `heads` attribute otherwise.
pub open spec fn flip_reply(ctx: Context, b: bool) -> Option<Seq<char>> {
    match ctx.bundle {
        None => None,
        Some(bundle) => match spec_lookup_msg(bundle.messages@, "flipcoin"@) {
            None => None,
            Some(m) => match spec_attr_format(
                m,
                if b {
                    "tails"@
                } else {
                    "heads"@
                },
                Seq::empty(),
            ) {
                None => None,
                Some(side) => match m.value {
                    None => None,
                    Some(p) => Some(spec_format(p.parts@, seq![("side"@, side)])),
                },
            },
        },
    }
}

/// Everything of two contexts agrees except possibly the platform window
/// and the random source.
pub open spec fn ctx_same_but_http_random(a: Context, b: Context) -> bool {
    &&& b.config == a.config
    &&& b.bundle == a.bundle
    &&& b.shard_manager == a.shard_manager
    &&& b.cache == a.cache
    &&& b.shard_id == a.shard_id
    &&& b.now_ms == a.now_ms
    &&& b.process_start_secs == a.process_start_secs
    &&& b.version == a.version
    &&& b.presence == a.presence
    &&& b.fs_writes == a.fs_writes
    &&& b.channel_directory == a.channel_directory
    &&& b.user_directory == a.user_directory
}

/// Flips a virtual coin and announces the side it lands on.
pub fn flip_coin(ctx: &mut Context, msg: &Message) -> (r: Result<(), HandlerError>)
    ensures
        match r {
            Ok(()) => ({
                &&& ctx_same_but_http_random(*old(ctx), *final(ctx))
                &&& rand_stepped(old(ctx).random, final(ctx).random)
                &&& match flip_bit(old(ctx).random) {
                    Some(b) => flip_reply(*old(ctx), b) matches Some(reply)
                        && crate::commands::owner::http_sent_str(
                        *old(ctx),
                        *final(ctx),
                        msg.channel_id.0,
                        reply,
                    ),
                    None => exists|b: bool|
                        (#[trigger] flip_reply(*old(ctx), b)) matches Some(reply)
                            && crate::commands::owner::http_sent_str(
                            *old(ctx),
                            *final(ctx),
                            msg.channel_id.0,
                            reply,
                        ),
                }
            }),
            Err(e) => ({
                &&& e matches HandlerError::L10N(_)
                &&& ctx_same_but_http_random(*old(ctx), *final(ctx))
                &&& final(ctx).http == old(ctx).http
                &&& (final(ctx).random == old(ctx).random || rand_stepped(
                    old(ctx).random,
                    final(ctx).random,
                ))
                &&& exists|b: bool| #[trigger] flip_reply(*old(ctx), b) is None
            }),
        },
{
    match &ctx.bundle {
        None => {
            proof {
                assert(flip_reply(*old(ctx), true) is None);
            }
            return Err(
                HandlerError::L10N(crate::localization::L10NError::MissingFromShareMap),
            );
        },
        Some(bundle) => {
            match bundle.get_message("flipcoin") {
                Ok(_) => {
                },
                Err(e) => {
                    proof {
                        assert(flip_reply(*old(ctx), true) is None);
                    }
                    return Err(HandlerError::L10N(e));
                },
            }
        },
    }
    let bit = ctx.random.flip();
    let reply: String = {
        let bundle = match &ctx.bundle {
            Some(b) => b,
            None => {
                return Err(
                    HandlerError::L10N(crate::localization::L10NError::MissingFromShareMap),
                );
            },
        };
        let flip_msg = match bundle.get_message("flipcoin") {
            Ok(m) => m,
            Err(e) => {
                return Err(HandlerError::L10N(e));
            },
        };
        let side = match bundle.get_msg_attribute(
            flip_msg,
            if bit {
                "tails"
            } else {
                "heads"
            },
            None,
        ) {
            Ok(s) => s,
            Err(e) => {
                proof {
                    assert(flip_reply(*old(ctx), bit) is None);
                }
                return Err(HandlerError::L10N(e));
            },
        };
        let mut args: Vec<(String, String)> = Vec::new();
        args.push((String::from_str("side"), side));
        proof {
            assert(crate::localization::opt_args(Some(&args)) =~= seq![("side"@, args@[0].1@)]);
        }
        match bundle.get_msg_value(flip_msg, Some(&args)) {
            Ok(s) => s,
            Err(e) => {
                proof {
                    assert(flip_reply(*old(ctx), bit) is None);
                }
                return Err(HandlerError::L10N(e));
            },
        }
    };
    let ghost mid = *ctx;
    msg.channel_id.say(&mut ctx.http, reply);
    proof {
        assert(ctx.http.sent@.subrange(0, mid.http.sent@.len() as int) =~= mid.http.sent@);
    }
    Ok(())
}

/// What a message asks `roll` to do: its tail parsed as a request, or one
/// six-sided die by default.
pub open spec fn roll_request(msg: Message) -> RollOutcome {
    match msg_tail(msg) {
        Some(t) => spec_roll_outcome(t),
        None => RollOutcome::Roll { dice: 1, sides: 6, modifier: None },
    }
}

/// Rolls the requested dice and replies with the rendered result; a zero
/// count, a zero side and every other malformed request each yield their
/// own localized notice.
pub fn roll(ctx: &mut Context, msg: &Message) -> (r: Result<(), HandlerError>)
    ensures
        match r {
            Ok(()) => ({
                &&& ctx_same_but_http_random(*old(ctx), *final(ctx))
                &&& match roll_request(*msg) {
                    RollOutcome::Roll { dice, sides, modifier } => exists|res: DiceRollResult|
                        #![auto]
                        ({
                            &&& res.rolls@.len() == dice
                            &&& forall|i: int|
                                0 <= i < res.rolls@.len() ==> 1 <= #[trigger] res.rolls@[i]
                                    <= sides
                            &&& (match (res.modifier, modifier) {
                                (Some(a), Some(b)) => a.spec_value() == b,
                                (None, None) => true,
                                _ => false,
                            })
                            &&& res.sum == sum_rolls(res.rolls@) + (match modifier {
                                Some(m) => m,
                                None => 0int,
                            })
                            &&& (match old(ctx).random {
                                RandomSource::Scripted { values, next } => values@.len() > 0
                                    ==> forall|i: int|
                                    0 <= i < res.rolls@.len() ==> #[trigger] res.rolls@[i]
                                        == crate::rng::scripted_roll(
                                        values@,
                                        next as int + i,
                                        sides as int,
                                    ),
                                RandomSource::System => true,
                            })
                            &&& crate::commands::owner::http_sent_str(
                                *old(ctx),
                                *final(ctx),
                                msg.channel_id.0,
                                spec_render(res),
                            )
                        }),
                    RollOutcome::NoDie => crate::transport::ctx_localize(
                        *old(ctx),
                        "roll-no-die"@,
                        Seq::empty(),
                    ) matches Some(reply) && crate::commands::owner::http_sent_str(
                        *old(ctx),
                        *final(ctx),
                        msg.channel_id.0,
                        reply,
                    ) && final(ctx).random == old(ctx).random,
                    RollOutcome::NoSide => crate::transport::ctx_localize(
                        *old(ctx),
                        "roll-no-side"@,
                        Seq::empty(),
                    ) matches Some(reply) && crate::commands::owner::http_sent_str(
                        *old(ctx),
                        *final(ctx),
                        msg.channel_id.0,
                        reply,
                    ) && final(ctx).random == old(ctx).random,
                    RollOutcome::Bad => crate::transport::ctx_localize(
                        *old(ctx),
                        "roll-parsing-error"@,
                        Seq::empty(),
                    ) matches Some(reply) && crate::commands::owner::http_sent_str(
                        *old(ctx),
                        *final(ctx),
                        msg.channel_id.0,
                        reply,
                    ) && final(ctx).random == old(ctx).random,
                }
            }),
            Err(e) => ({
                &&& e matches HandlerError::L10N(_)
                &&& *final(ctx) == *old(ctx)
                &&& match roll_request(*msg) {
                    RollOutcome::Roll { .. } => false,
                    RollOutcome::NoDie => crate::transport::ctx_localize(
                        *old(ctx),
                        "roll-no-die"@,
                        Seq::empty(),
                    ) is None,
                    RollOutcome::NoSide => crate::transport::ctx_localize(
                        *old(ctx),
                        "roll-no-side"@,
                        Seq::empty(),
                    ) is None,
                    RollOutcome::Bad => crate::transport::ctx_localize(
                        *old(ctx),
                        "roll-parsing-error"@,
                        Seq::empty(),
                    ) is None,
                }
            }),
        },
{
    let mut args = Args::new(msg.content.as_str());
    args.advance();
    let tail = args.remains();
    let parsed: Result<DiceRoll, DiceRollParseError> = match &tail {
        Some(t) => DiceRoll::from_str(t.as_str()),
        None => {
            match DiceRoll::new(1, 6, None) {
                Ok(d) => Ok(d),
                Err(_) => vstd::pervasive::unreached(),
            }
        },
    };
    match parsed {
        Ok(dice_roll) => {
            let res = dice_roll.roll(&mut ctx.random);
            let text = res.render();
            let ghost witness = res;
            let ghost mid = *ctx;
            msg.channel_id.say(&mut ctx.http, text);
            proof {
                assert(ctx.http.sent@.subrange(0, mid.http.sent@.len() as int)
                    =~= mid.http.sent@);
            }
            Ok(())
        },
        Err(e) => {
            let id: &str = match &e {
                DiceRollParseError::OutOfBoundDiceNum(
                    BoundedIntegerError::TooSmall(_),
                ) => "roll-no-die",
                DiceRollParseError::OutOfBoundSidesNum(
                    BoundedIntegerError::TooSmall(_),
                ) => "roll-no-side",
                _ => "roll-parsing-error",
            };
            let reply = match ctx.localize_msg(id, None) {
                Ok(s) => s,
                Err(le) => {
                    return Err(HandlerError::L10N(le));
                },
            };
            let ghost mid = *ctx;
            msg.channel_id.say(&mut ctx.http, reply);
            proof {
                assert(ctx.http.sent@.subrange(0, mid.http.sent@.len() as int)
                    =~= mid.http.sent@);
            }
            Ok(())
        },
    }
}

} // verus!
