//! Record identifiers on the wire.
//!
//! An identifier is a signed 64-bit integer.  On the wire it is written as a
//! decimal string, so that a consumer whose numbers are exact only up to
//! 2^53 - 1 still reads every identifier without loss.

use vstd::prelude::*;
use vstd::string::*;
use vstd::utf8::is_ascii_chars;

verus! {

/// Why a text is not an identifier.
#[derive(Debug, Clone, Copy, PartialEq, Eq, Structural)]
pub enum DecodeError {
    /// The text has no characters at all.
    Empty,
    /// The text holds something other than digits after an optional minus
    /// sign, or nothing after the sign.
    InvalidDigit,
    /// The digits denote a number outside the signed 64-bit range.
    Overflow,
}

/// The character that stands for the digit `d`.
pub open spec fn digit_char(d: int) -> char
    recommends
        0 <= d <= 9,
{
    if d == 0 {
        '0'
    } else if d == 1 {
        '1'
    } else if d == 2 {
        '2'
    } else if d == 3 {
        '3'
    } else if d == 4 {
        '4'
    } else if d == 5 {
        '5'
    } else if d == 6 {
        '6'
    } else if d == 7 {
        '7'
    } else if d == 8 {
        '8'
    } else {
        '9'
    }
}

/// Whether `c` is one of the ten decimal digits.
pub open spec fn is_digit(c: char) -> bool {
    '0' <= c && c <= '9'
}

/// The number that the digit `c` stands for.
pub open spec fn digit_value(c: char) -> int
    recommends
        is_digit(c),
{
    c as int - '0' as int
}

/// The decimal digits of `n`, most significant first, without leading zeros.
pub open spec fn digits_of(n: nat) -> Seq<char>
    decreases n,
{
    if n < 10 {
        seq![digit_char(n as int)]
    } else {
        digits_of(n / 10).push(digit_char((n % 10) as int))
    }
}

/// The decimal string of `n`: its digits, after a minus sign if `n` is
/// negative.
pub open spec fn decimal(n: int) -> Seq<char> {
    if n < 0 {
        seq!['-'] + digits_of((-n) as nat)
    } else {
        digits_of(n as nat)
    }
}

/// Whether every character of `s` is a decimal digit.
pub open spec fn all_digits(s: Seq<char>) -> bool {
    forall|i: int| 0 <= i < s.len() ==> is_digit(#[trigger] s[i])
}

/// The number that a sequence of digits denotes, read most significant
/// first.
pub open spec fn value_of(s: Seq<char>) -> nat
    decreases s.len(),
{
    if s.len() == 0 {
        0
    } else {
        (value_of(s.drop_last()) * 10 + digit_value(s.last())) as nat
    }
}

/// What a text decodes to.
///
/// A text is an identifier if it is a run of at least one digit, with an
/// optional minus sign in front, whose value lies in the signed 64-bit
/// range.  Leading zeros are read, a plus sign is not.
pub open spec fn parse(s: Seq<char>) -> Result<i64, DecodeError> {
    if s.len() == 0 {
        Err(DecodeError::Empty)
    } else {
        let negative = s[0] == '-';
        let digits = if negative {
            s.subrange(1, s.len() as int)
        } else {
            s
        };
        let magnitude = value_of(digits) as int;
        let number = if negative {
            -magnitude
        } else {
            magnitude
        };
        if digits.len() == 0 || !all_digits(digits) {
            Err(DecodeError::InvalidDigit)
        } else if number < i64::MIN || number > i64::MAX {
            Err(DecodeError::Overflow)
        } else {
            Ok(number as i64)
        }
    }
}

/// The digits that `rev` holds least significant first, written most
/// significant first.
spec fn written(rev: Seq<u8>) -> Seq<char> {
    Seq::new(rev.len(), |i: int| digit_char(rev[rev.len() - 1 - i] as int))
}

/// Every decimal string is a run of digits that denotes its number.
pub proof fn lemma_digits_of(n: nat)
    ensures
        digits_of(n).len() >= 1,
        all_digits(digits_of(n)),
        value_of(digits_of(n)) == n,
    decreases n,
{
    let s = digits_of(n);
    if n < 10 {
        assert(value_of(s.drop_last()) == 0);
    } else {
        lemma_digits_of(n / 10);
        assert(s.drop_last() =~= digits_of(n / 10));
    }
}

/// A longer run of digits denotes no smaller a number than its beginning.
pub proof fn lemma_value_of_prefix(s: Seq<char>, k: int)
    requires
        0 <= k <= s.len(),
        all_digits(s),
    ensures
        value_of(s.subrange(0, k)) <= value_of(s),
    decreases s.len() - k,
{
    if k == s.len() {
        assert(s.subrange(0, k) =~= s);
    } else {
        let t = s.drop_last();
        assert(t.subrange(0, k) =~= s.subrange(0, k));
        assert(all_digits(t));
        lemma_value_of_prefix(t, k);
    }
}

/// Decoding undoes encoding: the decimal string of every signed 64-bit
/// integer, at either end of the range and beyond 2^53 alike, decodes to
/// that integer.
pub proof fn lemma_round_trip(id: i64)
    ensures
        parse(decimal(id as int)) == Ok::<i64, DecodeError>(id),
{
    let s = decimal(id as int);
    if id < 0 {
        let d = digits_of((-id) as nat);
        lemma_digits_of((-id) as nat);
        assert(s.subrange(1, s.len() as int) =~= d);
    } else {
        lemma_digits_of(id as nat);
    }
}

fn digit_text(d: u8) -> (t: &'static str)
    requires
        d <= 9,
    ensures
        t@ == seq![digit_char(d as int)],
{
    proof {
        reveal_strlit("0");
        reveal_strlit("1");
        reveal_strlit("2");
        reveal_strlit("3");
        reveal_strlit("4");
        reveal_strlit("5");
        reveal_strlit("6");
        reveal_strlit("7");
        reveal_strlit("8");
        reveal_strlit("9");
    }
    let t = if d == 0 {
        "0"
    } else if d == 1 {
        "1"
    } else if d == 2 {
        "2"
    } else if d == 3 {
        "3"
    } else if d == 4 {
        "4"
    } else if d == 5 {
        "5"
    } else if d == 6 {
        "6"
    } else if d == 7 {
        "7"
    } else if d == 8 {
        "8"
    } else {
        "9"
    };
    t
}

/// Writes an identifier as its decimal string.
pub fn encode(id: i64) -> (text: String)
    ensures
        text@ == decimal(id as int),
{
    let negative = id < 0;
    let magnitude: u64 = if negative {
        (-(id as i128)) as u64
    } else {
        id as u64
    };
    let ghost digits = digits_of(magnitude as nat);
    let mut rev: Vec<u8> = Vec::new();
    rev.push((magnitude % 10) as u8);
    let mut rest: u64 = magnitude / 10;
    while rest > 0
        invariant
            rev.len() >= 1,
            forall|i: int| 0 <= i < rev.len() ==> rev[i] <= 9,
            rest > 0 ==> digits == digits_of(rest as nat) + written(rev@),
            rest == 0 ==> digits == written(rev@),
        decreases rest,
    {
        rev.push((rest % 10) as u8);
        rest = rest / 10;
    }
    let mut text = String::new();
    if negative {
        proof {
            reveal_strlit("-");
        }
        text.append("-");
    }
    let ghost sign = text@;
    let mut i: usize = rev.len();
    while i > 0
        invariant
            i <= rev.len(),
            forall|j: int| 0 <= j < rev.len() ==> rev[j] <= 9,
            text@ == sign + written(rev@).subrange(0, rev.len() - i),
        decreases i,
    {
        i = i - 1;
        text.append(digit_text(rev[i]));
    }
    text
}

/// Decodes a text of which only ASCII characters are left to read: `bytes`
/// holds the characters of `s` one for one.
#[verifier::loop_isolation(false)]
fn decode_ascii(bytes: &[u8], Ghost(s): Ghost<Seq<char>>) -> (r: Result<i64, DecodeError>)
    requires
        is_ascii_chars(s),
        bytes@.len() == s.len(),
        forall|i: int| 0 <= i < s.len() ==> bytes@[i] == #[trigger] s[i] as u8,
    ensures
        r == parse(s),
{
    let n = bytes.len();
    if n == 0 {
        return Err(DecodeError::Empty);
    }
    let negative = bytes[0] == 45u8;
    let start: usize = if negative {
        1
    } else {
        0
    };
    let ghost digits = s.subrange(start as int, n as int);
    assert(digits =~= if negative {
        s.subrange(1, s.len() as int)
    } else {
        s
    });
    if start == n {
        return Err(DecodeError::InvalidDigit);
    }
    let mut i: usize = start;
    while i < n
        invariant
            start <= i <= n,
            forall|j: int| 0 <= j < i - start ==> is_digit(#[trigger] digits[j]),
        decreases n - i,
    {
        let b = bytes[i];
        assert(digits[i - start] == s[i as int]);
        if b < 48 || b > 57 {
            return Err(DecodeError::InvalidDigit);
        }
        i = i + 1;
    }
    let limit: u64 = if negative {
        9223372036854775808
    } else {
        9223372036854775807
    };
    let mut acc: u64 = 0;
    let mut i: usize = start;
    while i < n
        invariant
            start <= i <= n,
            acc <= limit,
            acc == value_of(digits.subrange(0, i - start)),
        decreases n - i,
    {
        let b = bytes[i];
        assert(digits[i - start] == s[i as int]);
        let d = (b - 48) as u64;
        let ghost longer = digits.subrange(0, i - start + 1);
        assert(longer.drop_last() =~= digits.subrange(0, i - start));
        if acc > (limit - d) / 10 {
            proof {
                lemma_value_of_prefix(digits, i - start + 1);
            }
            return Err(DecodeError::Overflow);
        }
        acc = acc * 10 + d;
        i = i + 1;
    }
    assert(digits.subrange(0, n - start) =~= digits);
    if negative {
        if acc == 9223372036854775808 {
            Ok(i64::MIN)
        } else {
            Ok(-(acc as i64))
        }
    } else {
        Ok(acc as i64)
    }
}

/// Reads an identifier from its decimal string.
///
/// The text is accepted if it is a run of digits, with an optional minus
/// sign in front, that denotes a number of the signed 64-bit range.
pub fn decode(text: &str) -> (r: Result<i64, DecodeError>)
    ensures
        r == parse(text@),
{
    broadcast use is_ascii_spec_bytes;

    if !text.is_ascii() {
        proof {
            let s = text@;
            let i = choose|i: int| 0 <= i < s.len() && !('\0' <= #[trigger] s[i] <= '\u{7f}');
            if s[0] == '-' {
                let digits = s.subrange(1, s.len() as int);
                assert(digits[i - 1] == s[i]);
            }
        }
        return Err(DecodeError::InvalidDigit);
    }
    let bytes = text.as_bytes();
    decode_ascii(bytes, Ghost(text@))
}

/// An identifier as it arrives: written as a decimal string, or as a
/// number.
#[derive(Debug, Clone, PartialEq, Eq)]
pub enum WireId {
    Text(String),
    Number(i64),
}

/// What an identifier that arrives decodes to: a text to what it parses to,
/// a number to itself.
pub open spec fn parse_wire(id: WireId) -> Result<i64, DecodeError> {
    match id {
        WireId::Text(text) => parse(text@),
        WireId::Number(number) => Ok(number),
    }
}

/// Reads an identifier that arrives as a decimal string or as a number.
pub fn decode_wire(id: &WireId) -> (r: Result<i64, DecodeError>)
    ensures
        r == parse_wire(*id),
{
    match id {
        WireId::Text(text) => decode(text.as_str()),
        WireId::Number(number) => Ok(*number),
    }
}

} // verus!
