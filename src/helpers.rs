//! Text forms of numbers.
use vstd::prelude::*;

verus! {

/// The character of a decimal digit.
pub open spec fn digit(d: nat) -> char {
    if d == 0 {
        '0'
    } else if d == 1 {
        '1'
    } else if d == 2 {
        '2'
    } else if d == 3 {
        '3'
    } else if d == 4 {
        '4'
    } else if d == 5 {
        '5'
    } else if d == 6 {
        '6'
    } else if d == 7 {
        '7'
    } else if d == 8 {
        '8'
    } else {
        '9'
    }
}

/// Decimal digits of `n`, without leading zeros.
pub open spec fn decimal(n: nat) -> Seq<char>
    decreases n,
{
    if n < 10 {
        seq![digit(n)]
    } else {
        decimal(n / 10).push(digit(n % 10))
    }
}

/// Decimal digits of `n`, grouped by three from the right with commas.
pub open spec fn grouped(n: nat) -> Seq<char>
    decreases n,
{
    if n < 1000 {
        decimal(n)
    } else {
        let k = n % 1000;
        grouped(n / 1000) + seq![',', digit(k / 100), digit((k / 10) % 10), digit(k % 10)]
    }
}

/// `n` in English notation: a minus sign when negative, digits grouped by
/// three with commas.
pub open spec fn comma_string(n: int) -> Seq<char> {
    if n < 0 {
        seq!['-'] + grouped((-n) as nat)
    } else {
        grouped(n as nat)
    }
}

/// A number of hundredths written as a decimal with at most two places and
/// no trailing zeros: 157 is "1.57", 150 is "1.5", 200 is "2".
pub open spec fn hundredths_text(h: nat) -> Seq<char> {
    let whole = decimal(h / 100);
    let frac = h % 100;
    if frac == 0 {
        whole
    } else if frac % 10 == 0 {
        whole + seq!['.', digit(frac / 10)]
    } else {
        whole + seq!['.', digit(frac / 10), digit(frac % 10)]
    }
}

/// Relies on `num_format::Buffer::write_formatted` with `Locale::en`, whose
/// minus sign is "-", separator "," and grouping by threes.
#[verifier::external_body]
pub(crate) fn comma_sep(n: i128) -> (r: String)
    ensures
        r@ == comma_string(n as int),
{
    let mut buf = num_format::Buffer::default();
    buf.write_formatted(&n, &num_format::Locale::en);
    buf.as_str().to_owned()
}

/// Relies on `String::push`, which appends one character.
#[verifier::external_body]
pub(crate) fn push_char(s: &mut String, c: char)
    ensures
        final(s)@ == old(s)@.push(c),
{
    s.push(c);
}

pub fn digit_char(d: u64) -> (r: char)
    requires
        d < 10,
    ensures
        r == digit(d as nat),
{
    match d {
        0 => '0',
        1 => '1',
        2 => '2',
        3 => '3',
        4 => '4',
        5 => '5',
        6 => '6',
        7 => '7',
        8 => '8',
        _ => '9',
    }
}

/// Decimal digits of `n`.
pub fn decimal_text(n: u64) -> (r: String)
    ensures
        r@ == decimal(n as nat),
    decreases n,
{
    if n < 10 {
        let mut s = String::new();
        push_char(&mut s, digit_char(n));
        assert(s@ =~= seq![digit(n as nat)]);
        s
    } else {
        let mut s = decimal_text(n / 10);
        push_char(&mut s, digit_char(n % 10));
        s
    }
}

/// A number of hundredths as a short decimal.
pub fn hundredths_string(h: u64) -> (r: String)
    ensures
        r@ == hundredths_text(h as nat),
{
    let mut s = decimal_text(h / 100);
    let frac: u64 = h % 100;
    if frac != 0 {
        push_char(&mut s, '.');
        push_char(&mut s, digit_char(frac / 10));
        if frac % 10 != 0 {
            push_char(&mut s, digit_char(frac % 10));
        }
    }
    assert(s@ =~= hundredths_text(h as nat));
    s
}

/// Integers written with grouped digits.
pub trait ToCommaString: Sized {
    /// The number as a mathematical integer.
    spec fn int_value(&self) -> int;

    fn to_comma_sep_string(self) -> (r: String)
        ensures
            r@ == comma_string(self.int_value()),
    ;
}

impl ToCommaString for i32 {
    open spec fn int_value(&self) -> int {
        *self as int
    }

    fn to_comma_sep_string(self) -> (r: String) {
        comma_sep(self as i128)
    }
}

impl ToCommaString for i64 {
    open spec fn int_value(&self) -> int {
        *self as int
    }

    fn to_comma_sep_string(self) -> (r: String) {
        comma_sep(self as i128)
    }
}

} // verus!

verus! {

#[verifier::external_type_specification]
#[verifier::external_body]
pub struct ExParseIntError(std::num::ParseIntError);

pub open spec fn is_digit(c: char) -> bool {
    '0' <= c && c <= '9'
}

/// Value of a string of decimal digits.
pub open spec fn digits_value(s: Seq<char>) -> int
    decreases s.len(),
{
    if s.len() == 0 {
        0
    } else {
        digits_value(s.drop_last()) * 10 + ((s.last() as u32) - ('0' as u32))
    }
}

/// The `i32` that a string spells: an optional sign, then one or more
/// decimal digits, with a value in range.
pub open spec fn parsed_i32(s: Seq<char>) -> Option<int> {
    let signed = s.len() > 0 && (s[0] == '-' || s[0] == '+');
    let body = if signed {
        s.drop_first()
    } else {
        s
    };
    let value = if signed && s[0] == '-' {
        -digits_value(body)
    } else {
        digits_value(body)
    };
    if body.len() == 0 || !(forall|i: int| 0 <= i < body.len() ==> is_digit(#[trigger] body[i])) {
        None
    } else if value < i32::MIN || value > i32::MAX {
        None
    } else {
        Some(value)
    }
}

/// Relies on `str::parse::<i32>`, that is `i32::from_str`: an optional `+`
/// or `-`, then ASCII digits only, and a value within `i32`.
#[verifier::external_body]
fn parse_i32(s: &str) -> (r: Result<i32, std::num::ParseIntError>)
    ensures
        match r {
            Ok(v) => parsed_i32(s@) == Some(v as int),
            Err(_) => parsed_i32(s@) is None,
        },
{
    s.parse::<i32>()
}

/// The characters of `s` other than commas.
pub open spec fn without_commas(s: Seq<char>) -> Seq<char>
    decreases s.len(),
{
    if s.len() == 0 {
        s
    } else if s.last() == ',' {
        without_commas(s.drop_last())
    } else {
        without_commas(s.drop_last()).push(s.last())
    }
}

/// Reads an integer written with grouping commas, such as "1,234".
pub fn parse_comma_string(x: &str) -> (r: Result<i32, std::num::ParseIntError>)
    ensures
        match r {
            Ok(v) => parsed_i32(without_commas(x@)) == Some(v as int),
            Err(_) => parsed_i32(without_commas(x@)) is None,
        },
{
    let n = x.unicode_len();
    let mut kept = String::new();
    let mut i: usize = 0;
    while i < n
        invariant
            n == x@.len(),
            i <= n,
            kept@ == without_commas(x@.take(i as int)),
        decreases n - i,
    {
        let c = x.get_char(i);
        assert(x@.take(i + 1).drop_last() =~= x@.take(i as int));
        assert(x@.take(i + 1).last() == c);
        if c != ',' {
            push_char(&mut kept, c);
        }
        i = i + 1;
    }
    assert(x@.take(n as int) =~= x@);
    parse_i32(kept.as_str())
}

} // verus!

verus! {

/// The `u32` that a string spells: an optional `+`, then one or more decimal
/// digits, with a value in range.
pub open spec fn parsed_u32(s: Seq<char>) -> Option<int> {
    let body = if s.len() > 0 && s[0] == '+' {
        s.drop_first()
    } else {
        s
    };
    if body.len() == 0 || !(forall|i: int| 0 <= i < body.len() ==> is_digit(#[trigger] body[i])) {
        None
    } else if digits_value(body) > u32::MAX {
        None
    } else {
        Some(digits_value(body))
    }
}

/// Relies on `str::parse::<u32>`, that is `u32::from_str`: an optional `+`,
/// then ASCII digits only, and a value within `u32`.
#[verifier::external_body]
pub(crate) fn parse_u32(s: &str) -> (r: Option<u32>)
    ensures
        match r {
            Some(v) => parsed_u32(s@) == Some(v as int),
            None => parsed_u32(s@) is None,
        },
{
    s.parse::<u32>().ok()
}

} // verus!
