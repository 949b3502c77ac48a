//! Decimal integers: formatting (`to_string`) and parsing (`str::parse`), with the
//! error kinds that std's integer parser reports.
use vstd::prelude::*;
use crate::text::{all_digits, ascii_digit, is_ascii_digit, string_push, to_chars};

verus! {

/// Why an integer could not be parsed (the kinds of std's `ParseIntError`).
#[derive(Clone, Copy, Debug, PartialEq, Eq, Structural)]
pub enum IntErrorKind {
    Empty,
    InvalidDigit,
    PosOverflow,
    NegOverflow,
}

impl IntErrorKind {
    /// The text std's `ParseIntError` displays for this kind.
    pub fn message(self) -> (r: &'static str)
        ensures
            r@ == int_error_message(self),
    {
        match self {
            IntErrorKind::Empty => "cannot parse integer from empty string",
            IntErrorKind::InvalidDigit => "invalid digit found in string",
            IntErrorKind::PosOverflow => "number too large to fit in target type",
            IntErrorKind::NegOverflow => "number too small to fit in target type",
        }
    }
}

pub open spec fn int_error_message(k: IntErrorKind) -> Seq<char> {
    match k {
        IntErrorKind::Empty => "cannot parse integer from empty string"@,
        IntErrorKind::InvalidDigit => "invalid digit found in string"@,
        IntErrorKind::PosOverflow => "number too large to fit in target type"@,
        IntErrorKind::NegOverflow => "number too small to fit in target type"@,
    }
}

// ---------------------------------------------------------------------------
// Formatting
// ---------------------------------------------------------------------------

/// The digit character for `0 <= d < 10`.
pub open spec fn digit_char(d: int) -> char {
    (d + 48) as char
}

/// The numeric value of an ASCII digit.
pub open spec fn digit_value(c: char) -> int {
    c as int - 48
}

/// The decimal representation of `n`, without leading zeros.
pub open spec fn decimal(n: nat) -> Seq<char>
    decreases n,
{
    if n < 10 {
        seq![digit_char(n as int)]
    } else {
        decimal(n / 10).push(digit_char((n % 10) as int))
    }
}

/// The decimal representation of `n`, with a leading `-` when it is negative.
pub open spec fn signed_decimal(n: int) -> Seq<char> {
    if n < 0 {
        seq!['-'] + decimal((-n) as nat)
    } else {
        decimal(n as nat)
    }
}

fn digit(d: u64) -> (c: char)
    requires
        d < 10,
    ensures
        c == digit_char(d as int),
        is_ascii_digit(c),
        digit_value(c) == d,
{
    let c = match d {
        0 => '0',
        1 => '1',
        2 => '2',
        3 => '3',
        4 => '4',
        5 => '5',
        6 => '6',
        7 => '7',
        8 => '8',
        _ => '9',
    };
    c
}

/// Appends the decimal representation of `n`.
pub fn push_decimal(s: &mut String, n: u64)
    ensures
        final(s)@ == old(s)@ + decimal(n as nat),
    decreases n,
{
    if n >= 10 {
        push_decimal(s, n / 10);
    }
    string_push(s, digit(n % 10));
    proof {
        if n >= 10 {
            assert(old(s)@ + decimal(n as nat) =~= old(s)@ + decimal((n / 10) as nat) + seq![
                digit_char((n % 10) as int),
            ]);
        } else {
            assert(old(s)@ + decimal(n as nat) =~= old(s)@.push(digit_char((n % 10) as int)));
        }
    }
}

/// `n.to_string()` for `u64`.
pub fn u64_to_string(n: u64) -> (s: String)
    ensures
        s@ == decimal(n as nat),
{
    let mut s = String::new();
    push_decimal(&mut s, n);
    assert(s@ =~= decimal(n as nat));
    s
}

/// `n.to_string()` for `u32`.
pub fn u32_to_string(n: u32) -> (s: String)
    ensures
        s@ == decimal(n as nat),
{
    u64_to_string(n as u64)
}

/// `n.to_string()` for `usize`.
pub fn usize_to_string(n: usize) -> (s: String)
    ensures
        s@ == decimal(n as nat),
{
    u64_to_string(n as u64)
}

/// `n.to_string()` for `i64`.
pub fn i64_to_string(n: i64) -> (s: String)
    ensures
        s@ == signed_decimal(n as int),
{
    if n < 0 {
        let m: u64 = ((-(n + 1)) as u64) + 1;
        let mut s = String::new();
        string_push(&mut s, '-');
        push_decimal(&mut s, m);
        assert(s@ =~= seq!['-'] + decimal(m as nat));
        s
    } else {
        u64_to_string(n as u64)
    }
}

/// `n.to_string()` for `i32`.
pub fn i32_to_string(n: i32) -> (s: String)
    ensures
        s@ == signed_decimal(n as int),
{
    i64_to_string(n as i64)
}

pub proof fn lemma_decimal_digits(n: nat)
    ensures
        all_digits(decimal(n)),
        decimal(n).len() >= 1,
    decreases n,
{
    if n >= 10 {
        lemma_decimal_digits(n / 10);
        let d = decimal(n / 10);
        assert forall|i: int| 0 <= i < decimal(n).len() implies is_ascii_digit(
            #[trigger] decimal(n)[i],
        ) by {
            if i < d.len() {
                assert(decimal(n)[i] == d[i]);
            }
        }
    }
}

// ---------------------------------------------------------------------------
// Parsing
// ---------------------------------------------------------------------------

/// The value of the decimal digits `s`, read from left to right as std's parser
/// does: the first character that is not a digit gives `InvalidDigit`; a prefix
/// whose value exceeds `max` gives `overflow`.
pub open spec fn digits_value(s: Seq<char>, max: int, overflow: IntErrorKind) -> Result<
    int,
    IntErrorKind,
>
    decreases s.len(),
{
    if s.len() == 0 {
        Ok(0)
    } else {
        match digits_value(s.drop_last(), max, overflow) {
            Err(k) => Err(k),
            Ok(v) => if !is_ascii_digit(s.last()) {
                Err(IntErrorKind::InvalidDigit)
            } else if v * 10 + digit_value(s.last()) > max {
                Err(overflow)
            } else {
                Ok(v * 10 + digit_value(s.last()))
            },
        }
    }
}

/// `str::parse` for an unsigned integer type whose largest value is `max`.
pub open spec fn parse_unsigned(s: Seq<char>, max: int) -> Result<int, IntErrorKind> {
    if s.len() == 0 {
        Err(IntErrorKind::Empty)
    } else if s.len() == 1 && (s[0] == '+' || s[0] == '-') {
        Err(IntErrorKind::InvalidDigit)
    } else if s[0] == '+' {
        digits_value(s.drop_first(), max, IntErrorKind::PosOverflow)
    } else {
        digits_value(s, max, IntErrorKind::PosOverflow)
    }
}

/// `str::parse` for a signed integer type whose values range over `-min_abs ..= max`.
pub open spec fn parse_signed(s: Seq<char>, max: int, min_abs: int) -> Result<int, IntErrorKind> {
    if s.len() == 0 {
        Err(IntErrorKind::Empty)
    } else if s.len() == 1 && (s[0] == '+' || s[0] == '-') {
        Err(IntErrorKind::InvalidDigit)
    } else if s[0] == '+' {
        digits_value(s.drop_first(), max, IntErrorKind::PosOverflow)
    } else if s[0] == '-' {
        match digits_value(s.drop_first(), min_abs, IntErrorKind::NegOverflow) {
            Ok(v) => Ok(-v),
            Err(k) => Err(k),
        }
    } else {
        digits_value(s, max, IntErrorKind::PosOverflow)
    }
}

pub open spec fn spec_u32_from_str(s: Seq<char>) -> Result<int, IntErrorKind> {
    parse_unsigned(s, u32::MAX as int)
}

pub open spec fn spec_u64_from_str(s: Seq<char>) -> Result<int, IntErrorKind> {
    parse_unsigned(s, u64::MAX as int)
}

pub open spec fn spec_usize_from_str(s: Seq<char>) -> Result<int, IntErrorKind> {
    parse_unsigned(s, usize::MAX as int)
}

pub open spec fn spec_i32_from_str(s: Seq<char>) -> Result<int, IntErrorKind> {
    parse_signed(s, i32::MAX as int, 0x8000_0000)
}

proof fn lemma_digits_value_bounds(s: Seq<char>, max: int, overflow: IntErrorKind)
    requires
        max >= 0,
    ensures
        digits_value(s, max, overflow) matches Ok(v) ==> 0 <= v <= max,
    decreases s.len(),
{
    if s.len() > 0 {
        lemma_digits_value_bounds(s.drop_last(), max, overflow);
    }
}

/// A parsed unsigned value lies in `0 ..= max`.
pub proof fn lemma_parse_unsigned_bounds(s: Seq<char>, max: int)
    requires
        max >= 0,
    ensures
        parse_unsigned(s, max) matches Ok(v) ==> 0 <= v <= max,
{
    if s.len() > 0 {
        lemma_digits_value_bounds(s, max, IntErrorKind::PosOverflow);
        lemma_digits_value_bounds(s.drop_first(), max, IntErrorKind::PosOverflow);
    }
}

proof fn lemma_digits_value_err_extends(s: Seq<char>, n: int, max: int, overflow: IntErrorKind)
    requires
        0 <= n <= s.len(),
        digits_value(s.take(n), max, overflow) is Err,
    ensures
        digits_value(s, max, overflow) == digits_value(s.take(n), max, overflow),
    decreases s.len() - n,
{
    if n == s.len() {
        assert(s.take(n) =~= s);
    } else {
        assert(s.drop_last().take(n) =~= s.take(n));
        lemma_digits_value_err_extends(s.drop_last(), n, max, overflow);
    }
}

/// Reads the digits `v[start..]`.
fn read_digits(v: &Vec<char>, start: usize, max: u64, overflow: IntErrorKind) -> (r: Result<
    u64,
    IntErrorKind,
>)
    requires
        start <= v.len(),
    ensures
        match r {
            Ok(x) => digits_value(v@.skip(start as int), max as int, overflow) == Ok::<
                int,
                IntErrorKind,
            >(x as int),
            Err(k) => digits_value(v@.skip(start as int), max as int, overflow) == Err::<
                int,
                IntErrorKind,
            >(k),
        },
{
    let ghost s = v@.skip(start as int);
    let mut acc: u64 = 0;
    let mut i: usize = start;
    assert(s.take(0) =~= Seq::<char>::empty());
    while i < v.len()
        invariant
            start <= i <= v.len(),
            s == v@.skip(start as int),
            acc <= max,
            digits_value(s.take(i - start), max as int, overflow) == Ok::<int, IntErrorKind>(
                acc as int,
            ),
        decreases v.len() - i,
    {
        let c = v[i];
        let ghost prefix = s.take(i - start + 1);
        proof {
            assert(prefix.drop_last() =~= s.take(i - start));
            assert(prefix.last() == c);
        }
        if !ascii_digit(c) {
            proof {
                lemma_digits_value_err_extends(s, i - start + 1, max as int, overflow);
            }
            return Err(IntErrorKind::InvalidDigit);
        }
        let d: u64 = (c as u64) - 48;
        assert(d == digit_value(c));
        let next = match acc.checked_mul(10) {
            Some(m) => m.checked_add(d),
            None => None,
        };
        match next {
            Some(x) if x <= max => {
                acc = x;
            },
            _ => {
                proof {
                    lemma_digits_value_err_extends(s, i - start + 1, max as int, overflow);
                }
                return Err(overflow);
            },
        }
        i = i + 1;
    }
    assert(s.take(v.len() - start) =~= s);
    Ok(acc)
}

/// `str::parse` for an unsigned type whose largest value is `max`.
fn parse_unsigned_chars(v: &Vec<char>, max: u64) -> (r: Result<u64, IntErrorKind>)
    ensures
        match r {
            Ok(x) => parse_unsigned(v@, max as int) == Ok::<int, IntErrorKind>(x as int),
            Err(k) => parse_unsigned(v@, max as int) == Err::<int, IntErrorKind>(k),
        },
{
    if v.len() == 0 {
        return Err(IntErrorKind::Empty);
    }
    if v.len() == 1 && (v[0] == '+' || v[0] == '-') {
        return Err(IntErrorKind::InvalidDigit);
    }
    if v[0] == '+' {
        assert(v@.skip(1) =~= v@.drop_first());
        read_digits(v, 1, max, IntErrorKind::PosOverflow)
    } else {
        assert(v@.skip(0) =~= v@);
        read_digits(v, 0, max, IntErrorKind::PosOverflow)
    }
}

/// `s.parse::<u32>()`.
pub fn u32_from_str(s: &str) -> (r: Result<u32, IntErrorKind>)
    ensures
        match r {
            Ok(x) => spec_u32_from_str(s@) == Ok::<int, IntErrorKind>(x as int),
            Err(k) => spec_u32_from_str(s@) == Err::<int, IntErrorKind>(k),
        },
{
    let v = to_chars(s);
    match parse_unsigned_chars(&v, u32::MAX as u64) {
        Ok(x) => Ok(x as u32),
        Err(k) => Err(k),
    }
}

/// `s.parse::<u64>()`.
pub fn u64_from_str(s: &str) -> (r: Result<u64, IntErrorKind>)
    ensures
        match r {
            Ok(x) => spec_u64_from_str(s@) == Ok::<int, IntErrorKind>(x as int),
            Err(k) => spec_u64_from_str(s@) == Err::<int, IntErrorKind>(k),
        },
{
    let v = to_chars(s);
    parse_unsigned_chars(&v, u64::MAX)
}

/// `s.parse::<usize>()`.
pub fn usize_from_str(s: &str) -> (r: Result<usize, IntErrorKind>)
    ensures
        match r {
            Ok(x) => spec_usize_from_str(s@) == Ok::<int, IntErrorKind>(x as int),
            Err(k) => spec_usize_from_str(s@) == Err::<int, IntErrorKind>(k),
        },
{
    let v = to_chars(s);
    match parse_unsigned_chars(&v, usize::MAX as u64) {
        Ok(x) => Ok(x as usize),
        Err(k) => Err(k),
    }
}

/// `s.parse::<i32>()`.
pub fn i32_from_str(s: &str) -> (r: Result<i32, IntErrorKind>)
    ensures
        match r {
            Ok(x) => spec_i32_from_str(s@) == Ok::<int, IntErrorKind>(x as int),
            Err(k) => spec_i32_from_str(s@) == Err::<int, IntErrorKind>(k),
        },
{
    let v = to_chars(s);
    if v.len() == 0 {
        return Err(IntErrorKind::Empty);
    }
    if v.len() == 1 && (v[0] == '+' || v[0] == '-') {
        return Err(IntErrorKind::InvalidDigit);
    }
    if v[0] == '+' {
        assert(v@.skip(1) =~= v@.drop_first());
        match read_digits(&v, 1, 0x7fff_ffff, IntErrorKind::PosOverflow) {
            Ok(x) => Ok(x as i32),
            Err(k) => Err(k),
        }
    } else if v[0] == '-' {
        assert(v@.skip(1) =~= v@.drop_first());
        match read_digits(&v, 1, 0x8000_0000, IntErrorKind::NegOverflow) {
            Ok(x) => Ok((-(x as i64)) as i32),
            Err(k) => Err(k),
        }
    } else {
        assert(v@.skip(0) =~= v@);
        match read_digits(&v, 0, 0x7fff_ffff, IntErrorKind::PosOverflow) {
            Ok(x) => Ok(x as i32),
            Err(k) => Err(k),
        }
    }
}

proof fn lemma_digits_value_decimal(n: nat, max: int, overflow: IntErrorKind)
    requires
        n <= max,
    ensures
        digits_value(decimal(n), max, overflow) == Ok::<int, IntErrorKind>(n as int),
    decreases n,
{
    if n < 10 {
        let s = decimal(n);
        assert(s.drop_last() =~= Seq::<char>::empty());
    } else {
        lemma_digits_value_decimal(n / 10, max, overflow);
        assert(decimal(n).drop_last() =~= decimal(n / 10));
    }
}

/// Parsing the decimal text of an unsigned number gives the number back.
pub proof fn lemma_parse_unsigned_decimal(n: nat, max: int)
    requires
        n <= max,
    ensures
        parse_unsigned(decimal(n), max) == Ok::<int, IntErrorKind>(n as int),
{
    lemma_decimal_digits(n);
    lemma_digits_value_decimal(n, max, IntErrorKind::PosOverflow);
    assert(is_ascii_digit(decimal(n)[0]));
}

/// Parsing what `u32::to_string` gives returns the number (`n.to_string().parse() == Ok(n)`).
pub proof fn law_u32_text_round_trip(n: u32)
    ensures
        spec_u32_from_str(decimal(n as nat)) == Ok::<int, IntErrorKind>(n as int),
{
    lemma_parse_unsigned_decimal(n as nat, u32::MAX as int);
}

/// Parsing what `i32::to_string` gives returns the number.
pub proof fn law_i32_text_round_trip(n: i32)
    ensures
        spec_i32_from_str(signed_decimal(n as int)) == Ok::<int, IntErrorKind>(n as int),
{
    if n < 0 {
        let m = (-n) as nat;
        lemma_decimal_digits(m);
        lemma_digits_value_decimal(m, 0x8000_0000, IntErrorKind::NegOverflow);
        let s = signed_decimal(n as int);
        assert(s.drop_first() =~= decimal(m));
        assert(is_ascii_digit(decimal(m)[0]));
    } else {
        lemma_decimal_digits(n as nat);
        lemma_digits_value_decimal(n as nat, i32::MAX as int, IntErrorKind::PosOverflow);
        assert(is_ascii_digit(decimal(n as nat)[0]));
    }
}

} // verus!
