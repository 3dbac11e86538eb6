//! Decimal numbers: writing them, zero-padding them and reading them.
use super::ops;
use vstd::prelude::*;
use vstd::string::*;

verus! {

/// Why a text is not a decimal number of the wanted type.
#[derive(Clone, Copy, Debug, PartialEq, Eq, Structural)]
pub enum ParseFailure {
    Empty,
    InvalidDigit,
    PosOverflow,
    NegOverflow,
}

impl ParseFailure {
    pub open spec fn spec_message(self) -> Seq<char> {
        match self {
            ParseFailure::Empty => "cannot parse integer from empty string"@,
            ParseFailure::InvalidDigit => "invalid digit found in string"@,
            ParseFailure::PosOverflow => "number too large to fit in target type"@,
            ParseFailure::NegOverflow => "number too small to fit in target type"@,
        }
    }

    /// The failure in words.
    pub fn message(&self) -> (r: &'static str)
        ensures
            r@ == self.spec_message(),
    {
        match self {
            ParseFailure::Empty => "cannot parse integer from empty string",
            ParseFailure::InvalidDigit => "invalid digit found in string",
            ParseFailure::PosOverflow => "number too large to fit in target type",
            ParseFailure::NegOverflow => "number too small to fit in target type",
        }
    }
}

/// The character of a decimal digit.
pub open spec fn digit_char(d: int) -> char {
    (48 + d) as char
}

pub open spec fn is_digit(c: char) -> bool {
    '0' <= c <= '9'
}

/// The value of a digit character.
pub open spec fn digit_value(c: char) -> nat {
    (c as u32 - 48) as nat
}

/// The decimal form of a natural number.
pub open spec fn dec_nat(n: nat) -> Seq<char>
    decreases n,
{
    if n < 10 {
        seq![digit_char(n as int)]
    } else {
        dec_nat(n / 10).push(digit_char((n % 10) as int))
    }
}

/// The decimal form of an integer.
pub open spec fn dec(i: int) -> Seq<char> {
    if i < 0 {
        seq!['-'] + dec_nat((-i) as nat)
    } else {
        dec_nat(i as nat)
    }
}

/// `s` with zeros in front, up to `width` characters.
pub open spec fn zero_padded(s: Seq<char>, width: nat) -> Seq<char>
    decreases width - s.len(),
{
    if s.len() >= width {
        s
    } else {
        zero_padded(seq!['0'] + s, width)
    }
}

/// Reads the digits `s[from..]` after a value `acc`, as long as the value stays at most `limit`.
pub open spec fn scanned(s: Seq<char>, from: int, acc: nat, limit: nat, over: ParseFailure) -> Result<
    nat,
    ParseFailure,
>
    decreases s.len() - from,
{
    if from < 0 || from >= s.len() {
        Ok(acc)
    } else if !is_digit(s[from]) {
        Err(ParseFailure::InvalidDigit)
    } else if acc * 10 + digit_value(s[from]) > limit {
        Err(over)
    } else {
        scanned(s, from + 1, acc * 10 + digit_value(s[from]), limit, over)
    }
}

/// The number that a text stands for: digits after an optional `+`, at most `max`.
pub open spec fn parsed_unsigned(s: Seq<char>, max: nat) -> Result<nat, ParseFailure> {
    if s.len() == 0 {
        Err(ParseFailure::Empty)
    } else if s.len() == 1 && s[0] == '+' {
        Err(ParseFailure::InvalidDigit)
    } else if s[0] == '+' {
        scanned(s, 1, 0, max, ParseFailure::PosOverflow)
    } else {
        scanned(s, 0, 0, max, ParseFailure::PosOverflow)
    }
}

/// The number that a text stands for: digits after an optional sign, in the range of `i64`.
pub open spec fn parsed_i64(s: Seq<char>) -> Result<int, ParseFailure> {
    if s.len() == 0 {
        Err(ParseFailure::Empty)
    } else if s.len() == 1 && (s[0] == '+' || s[0] == '-') {
        Err(ParseFailure::InvalidDigit)
    } else if s[0] == '-' {
        match scanned(s, 1, 0, 0x8000_0000_0000_0000, ParseFailure::NegOverflow) {
            Ok(n) => Ok(-(n as int)),
            Err(e) => Err(e),
        }
    } else {
        match scanned(
            s,
            if s[0] == '+' {
                1
            } else {
                0
            },
            0,
            0x7fff_ffff_ffff_ffff,
            ParseFailure::PosOverflow,
        ) {
            Ok(n) => Ok(n as int),
            Err(e) => Err(e),
        }
    }
}

/// The decimal form of an unsigned number.
pub fn dec_u64(n: u64) -> (r: String)
    ensures
        r@ == dec_nat(n as nat),
        r@ == dec(n as int),
    decreases n,
{
    if n < 10 {
        let mut s = String::new();
        s.push((48 + n as u8) as char);
        assert(s@ =~= seq![digit_char(n as int)]);
        s
    } else {
        let mut s = dec_u64(n / 10);
        s.push((48 + (n % 10) as u8) as char);
        s
    }
}

/// The decimal form of a signed number.
pub fn dec_i64(n: i64) -> (r: String)
    ensures
        r@ == dec(n as int),
{
    if n < 0 {
        let m: u64 = (-(n as i128)) as u64;
        let mut s = String::new();
        s.push('-');
        s.append(&dec_u64(m));
        assert(s@ =~= seq!['-'] + dec_nat(m as nat));
        s
    } else {
        dec_u64(n as u64)
    }
}

/// The decimal form of a number with zeros in front, up to `width` characters.
pub fn dec_padded(n: u64, width: usize) -> (r: String)
    ensures
        r@ == zero_padded(dec_nat(n as nat), width as nat),
{
    let mut s = dec_u64(n);
    let mut len: usize = s.as_str().unicode_len();
    while len < width
        invariant
            len == s@.len(),
            zero_padded(dec_nat(n as nat), width as nat) == zero_padded(s@, width as nat),
        decreases width - len,
    {
        let mut t = String::new();
        t.push('0');
        t.append(&s);
        assert(t@ =~= seq!['0'] + s@);
        s = t;
        len += 1;
    }
    s
}

fn scan_digits(v: &[char], from: usize, limit: u64, over: ParseFailure) -> (r: Result<
    u64,
    ParseFailure,
>)
    requires
        from <= v@.len(),
    ensures
        match (r, scanned(v@, from as int, 0, limit as nat, over)) {
            (Ok(a), Ok(b)) => a == b,
            (Err(a), Err(b)) => a == b,
            _ => false,
        },
{
    let mut acc: u64 = 0;
    let mut i: usize = from;
    while i < v.len()
        invariant
            from <= i <= v@.len(),
            acc <= limit,
            scanned(v@, from as int, 0, limit as nat, over) == scanned(
                v@,
                i as int,
                acc as nat,
                limit as nat,
                over,
            ),
        decreases v@.len() - i,
    {
        let c = v[i];
        if c < '0' || '9' < c {
            return Err(ParseFailure::InvalidDigit);
        }
        let next: u128 = acc as u128 * 10 + (c as u32 - 48) as u128;
        if next > limit as u128 {
            return Err(over);
        }
        acc = next as u64;
        i += 1;
    }
    Ok(acc)
}

/// Reads an unsigned number of at most `max`.
pub fn parse_unsigned(s: &str, max: u64) -> (r: Result<u64, ParseFailure>)
    ensures
        match (r, parsed_unsigned(s@, max as nat)) {
            (Ok(a), Ok(b)) => a == b && a <= max,
            (Err(a), Err(b)) => a == b,
            _ => false,
        },
{
    let v = ops::to_chars(s);
    if v.len() == 0 {
        return Err(ParseFailure::Empty);
    }
    if v.len() == 1 && v[0] == '+' {
        return Err(ParseFailure::InvalidDigit);
    }
    let from: usize = if v[0] == '+' {
        1
    } else {
        0
    };
    proof {
        lemma_scanned_bound(v@, from as int, 0, max as nat, ParseFailure::PosOverflow);
    }
    scan_digits(&v, from, max, ParseFailure::PosOverflow)
}

/// Reads a signed number in the range of `i64`.
pub fn parse_i64(s: &str) -> (r: Result<i64, ParseFailure>)
    ensures
        match (r, parsed_i64(s@)) {
            (Ok(a), Ok(b)) => a == b,
            (Err(a), Err(b)) => a == b,
            _ => false,
        },
{
    let v = ops::to_chars(s);
    if v.len() == 0 {
        return Err(ParseFailure::Empty);
    }
    if v.len() == 1 && (v[0] == '+' || v[0] == '-') {
        return Err(ParseFailure::InvalidDigit);
    }
    if v[0] == '-' {
        proof {
            lemma_scanned_bound(v@, 1, 0, 0x8000_0000_0000_0000, ParseFailure::NegOverflow);
        }
        match scan_digits(&v, 1, 0x8000_0000_0000_0000, ParseFailure::NegOverflow) {
            Ok(n) => Ok((-(n as i128)) as i64),
            Err(e) => Err(e),
        }
    } else {
        let from: usize = if v[0] == '+' {
            1
        } else {
            0
        };
        proof {
            lemma_scanned_bound(v@, from as int, 0, 0x7fff_ffff_ffff_ffff, ParseFailure::PosOverflow);
        }
        match scan_digits(&v, from, 0x7fff_ffff_ffff_ffff, ParseFailure::PosOverflow) {
            Ok(n) => Ok(n as i64),
            Err(e) => Err(e),
        }
    }
}

proof fn lemma_scanned_bound(s: Seq<char>, from: int, acc: nat, limit: nat, over: ParseFailure)
    requires
        0 <= from,
        acc <= limit,
    ensures
        scanned(s, from, acc, limit, over) matches Ok(n) ==> n <= limit,
    decreases s.len() - from,
{
    if from < s.len() && is_digit(s[from]) && acc * 10 + digit_value(s[from]) <= limit {
        lemma_scanned_bound(s, from + 1, acc * 10 + digit_value(s[from]), limit, over);
    }
}

/// A number that a text stands for is in the range of `i64`.
pub proof fn lemma_parsed_i64_bounds(s: Seq<char>)
    ensures
        parsed_i64(s) matches Ok(n) ==> i64::MIN <= n <= i64::MAX,
{
    if s.len() > 0 {
        lemma_scanned_bound(s, 1, 0, 0x8000_0000_0000_0000, ParseFailure::NegOverflow);
        lemma_scanned_bound(s, 1, 0, 0x7fff_ffff_ffff_ffff, ParseFailure::PosOverflow);
        lemma_scanned_bound(s, 0, 0, 0x7fff_ffff_ffff_ffff, ParseFailure::PosOverflow);
    }
}

/// Reading a text and one more digit is reading the text, and then the digit.
proof fn lemma_scanned_push(
    s: Seq<char>,
    c: char,
    from: int,
    acc: nat,
    limit: nat,
    over: ParseFailure,
)
    requires
        0 <= from <= s.len(),
        is_digit(c),
    ensures
        scanned(s.push(c), from, acc, limit, over) == (match scanned(s, from, acc, limit, over) {
            Ok(n) => if n * 10 + digit_value(c) > limit {
                Err(over)
            } else {
                Ok(n * 10 + digit_value(c))
            },
            Err(e) => Err(e),
        }),
    decreases s.len() - from,
{
    reveal_with_fuel(scanned, 2);
    if from < s.len() {
        assert(s.push(c)[from] == s[from]);
        if is_digit(s[from]) && acc * 10 + digit_value(s[from]) <= limit {
            lemma_scanned_push(s, c, from + 1, acc * 10 + digit_value(s[from]), limit, over);
        }
    }
}

pub proof fn lemma_dec_nat_digits(n: nat)
    ensures
        dec_nat(n).len() > 0,
        forall|i: int| 0 <= i < dec_nat(n).len() ==> is_digit(#[trigger] dec_nat(n)[i]),
    decreases n,
{
    if n >= 10 {
        lemma_dec_nat_digits(n / 10);
    }
}

/// Reading the digits of a number in range gives the number back, whatever stands before them.
proof fn lemma_scanned_dec_nat(pre: Seq<char>, n: nat, limit: nat, over: ParseFailure)
    requires
        n <= limit,
    ensures
        scanned(pre + dec_nat(n), pre.len() as int, 0, limit, over) == Ok::<nat, ParseFailure>(n),
    decreases n,
{
    let s = pre + dec_nat(n);
    if n < 10 {
        reveal_with_fuel(scanned, 2);
        assert(s[pre.len() as int] == digit_char(n as int));
    } else {
        lemma_scanned_dec_nat(pre, n / 10, limit, over);
        let c = digit_char((n % 10) as int);
        lemma_scanned_push(pre + dec_nat(n / 10), c, pre.len() as int, 0, limit, over);
        assert(s =~= (pre + dec_nat(n / 10)).push(c));
    }
}

/// Reading the decimal form of an `i64` gives the number back.
pub proof fn lemma_parse_of_dec(i: int)
    requires
        i64::MIN <= i <= i64::MAX,
    ensures
        parsed_i64(dec(i)) == Ok::<int, ParseFailure>(i),
{
    if i < 0 {
        lemma_dec_nat_digits((-i) as nat);
        lemma_scanned_dec_nat(
            seq!['-'],
            (-i) as nat,
            0x8000_0000_0000_0000,
            ParseFailure::NegOverflow,
        );
    } else {
        lemma_dec_nat_digits(i as nat);
        lemma_scanned_dec_nat(seq![], i as nat, 0x7fff_ffff_ffff_ffff, ParseFailure::PosOverflow);
        assert(seq![] + dec_nat(i as nat) =~= dec_nat(i as nat));
        assert(is_digit(dec(i)[0]));
    }
}

/// Reading the decimal form of an unsigned number in range gives the number back.
pub proof fn lemma_parse_of_dec_unsigned(n: nat, max: nat)
    requires
        n <= max,
    ensures
        parsed_unsigned(dec_nat(n), max) == Ok::<nat, ParseFailure>(n),
{
    lemma_dec_nat_digits(n);
    lemma_scanned_dec_nat(seq![], n, max, ParseFailure::PosOverflow);
    assert(seq![] + dec_nat(n) =~= dec_nat(n));
    assert(is_digit(dec_nat(n)[0]));
}

proof fn lemma_scanned_bounds(s: Seq<char>, from: int, acc: nat, limit: nat, over: ParseFailure)
    requires
        0 <= from,
        acc <= limit,
    ensures
        scanned(s, from, acc, limit, over) matches Ok(n) ==> acc <= n <= limit,
    decreases s.len() - from,
{
    if from < s.len() && is_digit(s[from]) && acc * 10 + digit_value(s[from]) <= limit {
        lemma_scanned_bounds(s, from + 1, acc * 10 + digit_value(s[from]), limit, over);
    }
}

proof fn lemma_scanned_within(
    s: Seq<char>,
    from: int,
    acc: nat,
    limit: nat,
    least: nat,
    over: ParseFailure,
)
    requires
        0 <= from,
        acc <= limit,
        least <= limit,
        scanned(s, from, acc, limit, over) matches Ok(n) && n <= least,
    ensures
        scanned(s, from, acc, least, over) == scanned(s, from, acc, limit, over),
    decreases s.len() - from,
{
    if from < s.len() {
        let next = acc * 10 + digit_value(s[from]);
        lemma_scanned_bounds(s, from + 1, next, limit, over);
        lemma_scanned_within(s, from + 1, next, limit, least, over);
    }
}

/// A number that is read is not greater than the greatest one; and it is read as well where the
/// greatest one is smaller, as long as it is not exceeded.
pub proof fn lemma_parsed_within(s: Seq<char>, max: nat, least: nat)
    requires
        least <= max,
        parsed_unsigned(s, max) is Ok,
    ensures
        parsed_unsigned(s, max)->Ok_0 <= max,
        parsed_unsigned(s, max)->Ok_0 <= least ==> parsed_unsigned(s, least) == parsed_unsigned(
            s,
            max,
        ),
{
    let from: int = if s[0] == '+' {
        1
    } else {
        0
    };
    lemma_scanned_bounds(s, from, 0, max, ParseFailure::PosOverflow);
    if parsed_unsigned(s, max)->Ok_0 <= least {
        lemma_scanned_within(s, from, 0, max, least, ParseFailure::PosOverflow);
    }
}

} // verus!
