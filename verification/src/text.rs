//! Decimal rendering and parsing of integers, and helpers for moving between
//! `String` and `Vec<char>`, shared by the message formatting and parsing code.

use vstd::prelude::*;

verus! {

/// True for the ten ASCII decimal digit characters.
pub open spec fn is_dec_digit(c: char) -> bool {
    48 <= c as int && c as int <= 57
}

/// Numeric value of an ASCII digit character.
pub open spec fn digit_val(c: char) -> nat {
    (c as int - 48) as nat
}

/// The digit character for a value below ten.
pub open spec fn digit_char(d: nat) -> char {
    if d == 0 {
        '0'
    } else if d == 1 {
        '1'
    } else if d == 2 {
        '2'
    } else if d == 3 {
        '3'
    } else if d == 4 {
        '4'
    } else if d == 5 {
        '5'
    } else if d == 6 {
        '6'
    } else if d == 7 {
        '7'
    } else if d == 8 {
        '8'
    } else {
        '9'
    }
}

/// The decimal digit string of a natural number, most significant digit first.
pub open spec fn dec_digits(n: nat) -> Seq<char>
    decreases n,
{
    if n < 10 {
        seq![digit_char(n)]
    } else {
        dec_digits(n / 10).push(digit_char(n % 10))
    }
}

/// The decimal string of an integer: a minus sign for negative values,
/// then the digits of the magnitude.
pub open spec fn dec_int(n: int) -> Seq<char> {
    if n < 0 {
        seq!['-'] + dec_digits((-n) as nat)
    } else {
        dec_digits(n as nat)
    }
}

/// Value of a digit string read most significant digit first.
pub open spec fn digits_val(s: Seq<char>) -> nat
    decreases s.len(),
{
    if s.len() == 0 {
        0
    } else {
        digits_val(s.drop_last()) * 10 + digit_val(s.last())
    }
}

pub open spec fn all_dec_digits(s: Seq<char>) -> bool {
    forall|i: int| 0 <= i < s.len() ==> is_dec_digit(s[i])
}

/// An optional sign followed by at least one digit, as `str::parse` accepts
/// for the built-in integer types.
pub open spec fn spec_parse_int(s: Seq<char>) -> Option<int> {
    if s.len() > 0 && s[0] == '+' {
        match spec_parse_nat(s.skip(1)) {
            Some(k) => Some(k as int),
            None => None,
        }
    } else if s.len() > 0 && s[0] == '-' {
        match spec_parse_nat(s.skip(1)) {
            Some(k) => Some(-(k as int)),
            None => None,
        }
    } else {
        match spec_parse_nat(s) {
            Some(k) => Some(k as int),
            None => None,
        }
    }
}

/// A non-empty run of digits and nothing else.
pub open spec fn spec_parse_nat(s: Seq<char>) -> Option<nat> {
    if s.len() > 0 && all_dec_digits(s) {
        Some(digits_val(s))
    } else {
        None
    }
}

/// Reading back the digit string of `n` yields `n`.
pub proof fn lemma_digits_val_dec(n: nat)
    ensures
        digits_val(dec_digits(n)) == n,
        all_dec_digits(dec_digits(n)),
        dec_digits(n).len() >= 1,
    decreases n,
{
    if n < 10 {
        let s = seq![digit_char(n)];
        assert(dec_digits(n) == s);
        assert(s.drop_last() =~= Seq::<char>::empty());
        assert(digits_val(s.drop_last()) == 0);
        assert(s.last() == digit_char(n));
        assert(digits_val(s) == digits_val(s.drop_last()) * 10 + digit_val(s.last()));
        assert(digit_val(digit_char(n)) == n);
    } else {
        lemma_digits_val_dec(n / 10);
        let prefix = dec_digits(n / 10);
        let whole = prefix.push(digit_char(n % 10));
        assert(whole.drop_last() =~= prefix);
        assert(digits_val(whole) == digits_val(prefix) * 10 + digit_val(digit_char(n % 10)));
        assert(digit_val(digit_char(n % 10)) == n % 10);
        assert((n / 10) * 10 + n % 10 == n) by (nonlinear_arith);
    }
}

/// Appending digits never decreases the value of a digit string.
pub proof fn lemma_digits_val_extend(s: Seq<char>, t: Seq<char>)
    requires
        s.len() <= t.len(),
        t.subrange(0, s.len() as int) == s,
    ensures
        digits_val(s) <= digits_val(t),
    decreases t.len() - s.len(),
{
    if s.len() < t.len() {
        let t1 = t.drop_last();
        assert(t1.subrange(0, s.len() as int) =~= s);
        lemma_digits_val_extend(s, t1);
        assert(digits_val(t1) * 10 + digit_val(t.last()) >= digits_val(t1)) by (nonlinear_arith);
    } else {
        assert(t.subrange(0, s.len() as int) =~= t);
    }
}

fn digit_to_char(d: u64) -> (c: char)
    requires
        d < 10,
    ensures
        c == digit_char(d as nat),
{
    match d {
        0 => '0',
        1 => '1',
        2 => '2',
        3 => '3',
        4 => '4',
        5 => '5',
        6 => '6',
        7 => '7',
        8 => '8',
        _ => '9',
    }
}

fn char_to_digit(c: char) -> (r: Option<u64>)
    ensures
        match r {
            Some(d) => is_dec_digit(c) && d == digit_val(c) && d < 10,
            None => !is_dec_digit(c),
        },
{
    let x = c as u32;
    if 48 <= x && x <= 57 {
        Some((x - 48) as u64)
    } else {
        None
    }
}

/// Appends the decimal digits of `n` to `out`.
pub fn push_dec_u64(n: u64, out: &mut Vec<char>)
    ensures
        final(out)@ == old(out)@ + dec_digits(n as nat),
    decreases n,
{
    if n < 10 {
        out.push(digit_to_char(n));
        assert(final(out)@ =~= old(out)@ + dec_digits(n as nat));
    } else {
        push_dec_u64(n / 10, out);
        out.push(digit_to_char(n % 10));
        assert(final(out)@ =~= old(out)@ + dec_digits(n as nat));
    }
}

/// Appends the decimal form of `n`, with a minus sign when negative.
pub fn push_dec_i64(n: i64, out: &mut Vec<char>)
    ensures
        final(out)@ == old(out)@ + dec_int(n as int),
{
    if n < 0 {
        out.push('-');
        let m: u64 = if n == i64::MIN {
            9223372036854775808u64
        } else {
            (-n) as u64
        };
        assert(m as nat == (-(n as int)) as nat);
        push_dec_u64(m, out);
        assert(final(out)@ =~= old(out)@ + dec_int(n as int));
    } else {
        push_dec_u64(n as u64, out);
    }
}

/// The decimal string of `n`.
pub fn u64_to_string(n: u64) -> (r: String)
    ensures
        r@ == dec_digits(n as nat),
{
    let mut v: Vec<char> = Vec::new();
    push_dec_u64(n, &mut v);
    assert(v@ =~= dec_digits(n as nat));
    string_from_chars(&v)
}

/// The decimal string of `n`, with a minus sign when negative.
pub fn i64_to_string(n: i64) -> (r: String)
    ensures
        r@ == dec_int(n as int),
{
    let mut v: Vec<char> = Vec::new();
    push_dec_i64(n, &mut v);
    assert(v@ =~= dec_int(n as int));
    string_from_chars(&v)
}

/// Relies on `String`'s `FromIterator<char>` implementation: collecting
/// characters yields the string made of exactly those characters in order.
#[verifier::external_body]
pub fn string_from_chars(v: &Vec<char>) -> (r: String)
    ensures
        r@ == v@,
{
    v.iter().collect()
}

/// First position at or after `pos` whose character is no ASCII digit, or
/// the length.
pub open spec fn digit_run_end(s: Seq<char>, pos: int) -> int
    decreases s.len() - pos,
{
    if pos < 0 || pos >= s.len() {
        s.len() as int
    } else if is_dec_digit(s[pos]) {
        digit_run_end(s, pos + 1)
    } else {
        pos
    }
}

/// Character-for-character equality of a character vector and a string slice.
pub fn vec_str_eq(v: &Vec<char>, s: &str) -> (r: bool)
    ensures
        r == (v@ == s@),
{
    let ls = s.unicode_len();
    if v.len() != ls {
        return false;
    }
    let mut i: usize = 0;
    while i < ls
        invariant
            i <= ls,
            ls == s@.len(),
            ls == v@.len(),
            forall|j: int| 0 <= j < i ==> v@[j] == s@[j],
        decreases ls - i,
    {
        if v[i] != s.get_char(i) {
            return false;
        }
        i = i + 1;
    }
    proof {
        assert(v@ =~= s@);
    }
    true
}

/// The characters `v[from..to]` as a fresh vector.
pub fn subchars(v: &Vec<char>, from: usize, to: usize) -> (r: Vec<char>)
    requires
        from <= to <= v@.len(),
    ensures
        r@ == v@.subrange(from as int, to as int),
{
    let mut out: Vec<char> = Vec::new();
    let mut i: usize = from;
    while i < to
        invariant
            from <= i <= to <= v@.len(),
            out@ == v@.subrange(from as int, i as int),
        decreases to - i,
    {
        out.push(v[i]);
        assert(out@ =~= v@.subrange(from as int, i + 1));
        i = i + 1;
    }
    out
}

/// Character-for-character equality of two string slices.
pub fn str_eq(a: &str, b: &str) -> (r: bool)
    ensures
        r == (a@ == b@),
{
    let la = a.unicode_len();
    let lb = b.unicode_len();
    if la != lb {
        return false;
    }
    let mut i: usize = 0;
    while i < la
        invariant
            i <= la,
            la == a@.len(),
            la == b@.len(),
            forall|j: int| 0 <= j < i ==> a@[j] == b@[j],
        decreases la - i,
    {
        if a.get_char(i) != b.get_char(i) {
            return false;
        }
        i = i + 1;
    }
    proof {
        assert(a@ =~= b@);
    }
    true
}

/// The characters of `s` as a vector.
pub fn chars_of(s: &str) -> (r: Vec<char>)
    ensures
        r@ == s@,
{
    let len = s.unicode_len();
    let mut v: Vec<char> = Vec::new();
    let mut i: usize = 0;
    while i < len
        invariant
            i <= len,
            len == s@.len(),
            v@ == s@.subrange(0, i as int),
        decreases len - i,
    {
        v.push(s.get_char(i));
        assert(v@ =~= s@.subrange(0, i + 1));
        i = i + 1;
    }
    assert(v@ =~= s@);
    v
}

/// Parses `v[from..to]` as a non-empty unsigned run of digits.
/// `None` when the run is empty, holds a non-digit, or exceeds `u64::MAX`.
pub fn parse_dec_u64(v: &Vec<char>, from: usize, to: usize) -> (r: Option<u64>)
    requires
        from <= to <= v@.len(),
    ensures
        match r {
            Some(x) => spec_parse_nat(v@.subrange(from as int, to as int)) == Some(x as nat),
            None => match spec_parse_nat(v@.subrange(from as int, to as int)) {
                Some(k) => k > u64::MAX,
                None => true,
            },
        },
{
    let ghost whole = v@.subrange(from as int, to as int);
    if from == to {
        return None;
    }
    let mut val: u64 = 0;
    let mut i: usize = from;
    while i < to
        invariant
            from <= i <= to <= v@.len(),
            whole == v@.subrange(from as int, to as int),
            all_dec_digits(v@.subrange(from as int, i as int)),
            val as nat == digits_val(v@.subrange(from as int, i as int)),
        decreases to - i,
    {
        let ghost sofar = v@.subrange(from as int, i as int);
        match char_to_digit(v[i]) {
            Some(d) => {
                let ghost next = v@.subrange(from as int, i + 1);
                assert(next.drop_last() =~= sofar);
                assert(next.last() == v@[i as int]);
                if val > (u64::MAX - d as u64) / 10 {
                    proof {
                        assert(digits_val(next) == digits_val(sofar) * 10 + digit_val(v@[i as int]));
                        assert(digits_val(next) > u64::MAX) by (nonlinear_arith)
                            requires
                                digits_val(next) == digits_val(sofar) * 10 + digit_val(v@[i as int]),
                                digits_val(sofar) == val as nat,
                                val > (u64::MAX - digit_val(v@[i as int])) / 10,
                                digit_val(v@[i as int]) < 10,
                        ;
                        assert(next =~= whole.subrange(0, next.len() as int));
                        lemma_digits_val_extend(next, whole);
                    }
                    return None;
                }
                proof {
                    assert(val as nat * 10 + d as nat <= u64::MAX) by (nonlinear_arith)
                        requires
                            val <= (u64::MAX - d as u64) / 10,
                            d < 10,
                    ;
                }
                val = val * 10 + d;
                i = i + 1;
            },
            None => {
                assert(whole[i - from] == v@[i as int]);
                return None;
            },
        }
    }
    assert(v@.subrange(from as int, i as int) =~= whole);
    Some(val)
}

/// Parses `v[from..to]` as `str::parse` does for a signed integer:
/// an optional `+` or `-`, then at least one digit.
/// `None` when the text is malformed or the value falls outside `i64`.
pub fn parse_dec_i64(v: &Vec<char>, from: usize, to: usize) -> (r: Option<i64>)
    requires
        from <= to <= v@.len(),
    ensures
        match r {
            Some(x) => spec_parse_int(v@.subrange(from as int, to as int)) == Some(x as int),
            None => match spec_parse_int(v@.subrange(from as int, to as int)) {
                Some(k) => k < i64::MIN || k > i64::MAX,
                None => true,
            },
        },
{
    let ghost whole = v@.subrange(from as int, to as int);
    if from == to {
        return None;
    }
    let c0 = v[from];
    if c0 == '+' {
        assert(whole.skip(1) =~= v@.subrange(from + 1, to as int));
        match parse_dec_u64(v, from + 1, to) {
            Some(x) => {
                if x <= i64::MAX as u64 {
                    Some(x as i64)
                } else {
                    None
                }
            },
            None => None,
        }
    } else if c0 == '-' {
        assert(whole.skip(1) =~= v@.subrange(from + 1, to as int));
        match parse_dec_u64(v, from + 1, to) {
            Some(x) => {
                if x <= 9223372036854775808u64 {
                    let r: i64 = if x == 9223372036854775808u64 {
                        i64::MIN
                    } else {
                        -(x as i64)
                    };
                    Some(r)
                } else {
                    None
                }
            },
            None => None,
        }
    } else {
        match parse_dec_u64(v, from, to) {
            Some(x) => {
                if x <= i64::MAX as u64 {
                    Some(x as i64)
                } else {
                    None
                }
            },
            None => None,
        }
    }
}

} // verus!
