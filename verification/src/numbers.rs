//! Decimal integers in text: reading them as `str::parse` does for unsigned
//! targets, and writing them.
use vstd::prelude::*;
use crate::text::string_push;

verus! {

/// Why a decimal integer could not be read, with the cases std distinguishes.
#[derive(Debug, Clone, Copy, PartialEq, Eq, Structural)]
pub enum IntErrorKind {
    /// The text is empty.
    Empty,
    /// The text holds a character that is not a digit where one is expected.
    InvalidDigit,
    /// The value is larger than the target type holds.
    PosOverflow,
}

impl IntErrorKind {
    /// The message std gives for this kind of failure.
    pub open spec fn message_spec(self) -> Seq<char> {
        match self {
            IntErrorKind::Empty => "cannot parse integer from empty string"@,
            IntErrorKind::InvalidDigit => "invalid digit found in string"@,
            IntErrorKind::PosOverflow => "number too large to fit in target type"@,
        }
    }

    /// The message std gives for this kind of failure.
    pub fn message(&self) -> (res: String)
        ensures
            res@ == self.message_spec(),
    {
        match self {
            IntErrorKind::Empty => String::from_str("cannot parse integer from empty string"),
            IntErrorKind::InvalidDigit => String::from_str("invalid digit found in string"),
            IntErrorKind::PosOverflow => String::from_str("number too large to fit in target type"),
        }
    }
}

/// Whether `c` is an ASCII decimal digit.
pub open spec fn is_digit(c: char) -> bool {
    '0' <= c && c <= '9'
}

/// The value of an ASCII decimal digit.
pub open spec fn digit_value(c: char) -> int {
    c as int - '0' as int
}

/// Reads the digits of `d` from left to right; the first character that is
/// not a digit, or the first digit that takes the value past `max`, decides
/// the failure.
pub open spec fn digits_spec(d: Seq<char>, max: int) -> Result<int, IntErrorKind>
    decreases d.len(),
{
    if d.len() == 0 {
        Ok(0)
    } else {
        match digits_spec(d.drop_last(), max) {
            Err(e) => Err(e),
            Ok(v) => if !is_digit(d.last()) {
                Err(IntErrorKind::InvalidDigit)
            } else if v * 10 + digit_value(d.last()) > max {
                Err(IntErrorKind::PosOverflow)
            } else {
                Ok(v * 10 + digit_value(d.last()))
            },
        }
    }
}

/// What `str::parse` gives for an unsigned integer type whose largest value
/// is `max`: an optional `+` sign followed by decimal digits.
pub open spec fn parse_unsigned_spec(s: Seq<char>, max: int) -> Result<int, IntErrorKind> {
    if s.len() == 0 {
        Err(IntErrorKind::Empty)
    } else if (s[0] == '+' || s[0] == '-') && s.len() == 1 {
        Err(IntErrorKind::InvalidDigit)
    } else if s[0] == '+' {
        digits_spec(s.drop_first(), max)
    } else {
        digits_spec(s, max)
    }
}

proof fn lemma_digits_bounded(d: Seq<char>, max: int)
    requires
        max >= 0,
    ensures
        digits_spec(d, max) matches Ok(v) ==> 0 <= v <= max,
    decreases d.len(),
{
    if d.len() > 0 {
        lemma_digits_bounded(d.drop_last(), max);
    }
}

/// Reads the digits of `d` (see `digits_spec`).
fn parse_digits(d: &[char], max: u64) -> (res: Result<u64, IntErrorKind>)
    ensures
        match res {
            Ok(v) => digits_spec(d@, max as int) == Ok::<int, IntErrorKind>(v as int),
            Err(e) => digits_spec(d@, max as int) == Err::<int, IntErrorKind>(e),
        },
{
    let mut value: u64 = 0;
    for i in 0..d.len()
        invariant
            digits_spec(d@.take(i as int), max as int) == Ok::<int, IntErrorKind>(value as int),
            value <= max,
    {
        assert(d@.take(i + 1).drop_last() =~= d@.take(i as int));
        assert(d@.take(i + 1).last() == d@[i as int]);
        let c = d[i];
        if !('0' <= c && c <= '9') {
            proof {
                lemma_digits_prefix_error(d@, i + 1, max as int, IntErrorKind::InvalidDigit);
            }
            return Err(IntErrorKind::InvalidDigit);
        }
        let dv: u64 = (c as u32 - '0' as u32) as u64;
        assert(dv as int == digit_value(c));
        if dv > max {
            proof {
                assert(value * 10 + dv > max) by (nonlinear_arith)
                    requires dv > max, value >= 0;
                lemma_digits_prefix_error(d@, i + 1, max as int, IntErrorKind::PosOverflow);
            }
            return Err(IntErrorKind::PosOverflow);
        }
        if value > (max - dv) / 10 {
            assert(value * 10 + dv > max) by (nonlinear_arith)
                requires
                    value > (max - dv) / 10,
                    dv <= max,
            ;
            proof {
                lemma_digits_prefix_error(d@, i + 1, max as int, IntErrorKind::PosOverflow);
            }
            return Err(IntErrorKind::PosOverflow);
        }
        assert(value * 10 + dv <= max) by (nonlinear_arith)
            requires
                value <= (max - dv) / 10,
                dv <= 9,
        ;
        value = value * 10 + dv;
    }
    assert(d@.take(d.len() as int) =~= d@);
    Ok(value)
}

/// Once a prefix fails, the whole sequence fails the same way.
proof fn lemma_digits_prefix_error(d: Seq<char>, n: int, max: int, e: IntErrorKind)
    requires
        0 <= n <= d.len(),
        digits_spec(d.take(n), max) == Err::<int, IntErrorKind>(e),
    ensures
        digits_spec(d, max) == Err::<int, IntErrorKind>(e),
    decreases d.len() - n,
{
    if n < d.len() {
        assert(d.take(n + 1).drop_last() =~= d.take(n));
        lemma_digits_prefix_error(d, n + 1, max, e);
    } else {
        assert(d.take(n) =~= d);
    }
}

/// Reads an unsigned decimal integer no larger than `max`, as `str::parse`
/// does for an unsigned type whose largest value is `max`.
pub fn parse_bounded(s: &[char], max: u64) -> (res: Result<u64, IntErrorKind>)
    ensures
        match res {
            Ok(v) => parse_unsigned_spec(s@, max as int) == Ok::<int, IntErrorKind>(v as int),
            Err(e) => parse_unsigned_spec(s@, max as int) == Err::<int, IntErrorKind>(e),
        },
{
    if s.len() == 0 {
        return Err(IntErrorKind::Empty);
    }
    if (s[0] == '+' || s[0] == '-') && s.len() == 1 {
        return Err(IntErrorKind::InvalidDigit);
    }
    if s[0] == '+' {
        let mut rest: Vec<char> = Vec::new();
        for i in 1..s.len()
            invariant
                1 <= s.len(),
                rest@ == s@.subrange(1, i as int),
        {
            rest.push(s[i]);
            assert(s@.subrange(1, i + 1) =~= s@.subrange(1, i as int).push(s@[i as int]));
        }
        assert(rest@ =~= s@.drop_first());
        parse_digits(rest.as_slice(), max)
    } else {
        parse_digits(s, max)
    }
}

/// Reads a `u32` as `str::parse::<u32>` does.
pub fn parse_u32(s: &[char]) -> (res: Result<u32, IntErrorKind>)
    ensures
        match res {
            Ok(v) => parse_unsigned_spec(s@, u32::MAX as int) == Ok::<int, IntErrorKind>(v as int),
            Err(e) => parse_unsigned_spec(s@, u32::MAX as int) == Err::<int, IntErrorKind>(e),
        },
{
    match parse_bounded(s, 0xffff_ffffu64) {
        Ok(v) => {
            proof {
                lemma_parse_bounded(s@, u32::MAX as int);
            }
            Ok(v as u32)
        },
        Err(e) => Err(e),
    }
}

/// Reads a `usize` as `str::parse::<usize>` does.
pub fn parse_usize(s: &[char]) -> (res: Result<usize, IntErrorKind>)
    ensures
        match res {
            Ok(v) => parse_unsigned_spec(s@, usize::MAX as int) == Ok::<int, IntErrorKind>(
                v as int,
            ),
            Err(e) => parse_unsigned_spec(s@, usize::MAX as int) == Err::<int, IntErrorKind>(e),
        },
{
    match parse_bounded(s, usize::MAX as u64) {
        Ok(v) => {
            proof {
                lemma_parse_bounded(s@, usize::MAX as int);
            }
            Ok(v as usize)
        },
        Err(e) => Err(e),
    }
}

/// A successful read is within bounds.
pub proof fn lemma_parse_bounded(s: Seq<char>, max: int)
    requires
        max >= 0,
    ensures
        parse_unsigned_spec(s, max) matches Ok(v) ==> 0 <= v <= max,
{
    lemma_digits_bounded(s, max);
    if s.len() > 0 {
        lemma_digits_bounded(s.drop_first(), max);
    }
}

/// The character of a decimal digit.
pub open spec fn digit_char(d: int) -> char {
    (d + '0' as int) as char
}

/// The decimal representation of `n`, without leading zeros.
pub open spec fn decimal_spec(n: nat) -> Seq<char>
    decreases n,
{
    if n < 10 {
        seq![digit_char(n as int)]
    } else {
        decimal_spec(n / 10).push(digit_char((n % 10) as int))
    }
}

/// The decimal representation of a signed integer, with a leading `-` when
/// it is negative (as `i64`'s `Display` writes it).
pub open spec fn signed_decimal_spec(n: int) -> Seq<char> {
    if n < 0 {
        seq!['-'] + decimal_spec((-n) as nat)
    } else {
        decimal_spec(n as nat)
    }
}

/// Appends the decimal representation of `n` to `s`.
pub fn push_decimal(s: &mut String, n: u64)
    ensures
        final(s)@ == old(s)@ + decimal_spec(n as nat),
    decreases n,
{
    if n >= 10 {
        push_decimal(s, n / 10);
    }
    let d: u32 = (n % 10) as u32;
    let c: char = match d {
        0 => '0',
        1 => '1',
        2 => '2',
        3 => '3',
        4 => '4',
        5 => '5',
        6 => '6',
        7 => '7',
        8 => '8',
        _ => '9',
    };
    assert(c == digit_char((n % 10) as int));
    string_push(s, c);
}

/// Appends the decimal representation of a signed integer to `s`.
pub fn push_signed_decimal(s: &mut String, n: i64)
    ensures
        final(s)@ == old(s)@ + signed_decimal_spec(n as int),
{
    if n < 0 {
        string_push(s, '-');
        let m: u64 = if n == i64::MIN {
            0x8000_0000_0000_0000u64
        } else {
            (-n) as u64
        };
        push_decimal(s, m);
        assert(s@ =~= old(s)@ + signed_decimal_spec(n as int));
    } else {
        push_decimal(s, n as u64);
    }
}

/// The decimal representation of a number is never empty and is made of
/// digits.
pub proof fn lemma_decimal_digits(n: nat)
    ensures
        decimal_spec(n).len() >= 1,
        forall|i: int| 0 <= i < decimal_spec(n).len() ==> is_digit(#[trigger] decimal_spec(n)[i]),
    decreases n,
{
    if n < 10 {
        let c = digit_char(n as int);
        assert(c as int == n + 48);
        assert(decimal_spec(n)[0] == c);
    }
    if n >= 10 {
        lemma_decimal_digits(n / 10);
        let d = decimal_spec(n / 10);
        assert forall|i: int| 0 <= i < decimal_spec(n).len() implies is_digit(
            #[trigger] decimal_spec(n)[i],
        ) by {
            if i < d.len() {
                assert(decimal_spec(n)[i] == d[i]);
            } else {
                let c = digit_char((n % 10) as int);
                assert(c as int == (n % 10) + 48);
            }
        }
    }
}

proof fn lemma_digits_of_decimal(n: nat, max: int)
    requires
        n <= max,
    ensures
        digits_spec(decimal_spec(n), max) == Ok::<int, IntErrorKind>(n as int),
    decreases n,
{
    if n >= 10 {
        lemma_digits_of_decimal(n / 10, max);
        assert(decimal_spec(n).drop_last() =~= decimal_spec(n / 10));
        assert((n / 10) * 10 + (n % 10) == n);
        let c = digit_char((n % 10) as int);
        assert(c as int == (n % 10) + 48);
        assert(decimal_spec(n).last() == c);
        assert(is_digit(c));
        assert('0' as int == 48);
        assert(digit_value(c) == n % 10);
        assert(digits_spec(decimal_spec(n).drop_last(), max) == Ok::<int, IntErrorKind>((n / 10) as int));
        assert((n / 10) * 10 + digit_value(c) == n);
    } else {
        let c = digit_char(n as int);
        assert(decimal_spec(n) == seq![c]);
        assert(seq![c].drop_last() =~= Seq::<char>::empty());
        assert(c as int == n + 48);
        assert('0' as int == 48);
        assert(is_digit(c));
        assert(digit_value(c) == n);
        assert(digits_spec(Seq::<char>::empty(), max) == Ok::<int, IntErrorKind>(0));
        assert(seq![c].last() == c);
    }
}

/// Writing a number in decimal and reading it back gives the number, for
/// every number that fits the type read.
pub proof fn law_decimal_round_trip(n: nat, max: int)
    requires
        n <= max,
    ensures
        parse_unsigned_spec(decimal_spec(n), max) == Ok::<int, IntErrorKind>(n as int),
{
    lemma_decimal_digits(n);
    lemma_digits_of_decimal(n, max);
    assert(is_digit(decimal_spec(n)[0]));
}

} // verus!
