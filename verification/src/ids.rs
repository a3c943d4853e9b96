//! Identifiers as text: reading a decimal `i32` and writing one.

use vstd::prelude::*;
use vstd::std_specs::iter::IteratorSpec;
use vstd::string::StringExecFns;

verus! {

/// Why a text is not an identifier.
#[derive(Clone, Copy, Debug, PartialEq, Eq, Structural)]
pub enum IdError {
    /// The text has no characters.
    Empty,
    /// A character is not a decimal digit, or a sign stands alone.
    InvalidDigit,
    /// The digits name a number above `i32::MAX`.
    TooLarge,
    /// The digits name a number below `i32::MIN`.
    TooSmall,
}

pub open spec fn is_digit(c: char) -> bool {
    '0' <= c <= '9'
}

pub open spec fn digit_value(c: char) -> int {
    c as int - '0' as int
}

pub open spec fn digit_char(d: int) -> char {
    ('0' as int + d) as char
}

/// The number that one more character makes of `value`, read left to right.
/// A character that is no digit is reported before the size of the number.
pub open spec fn scan_step(value: int, c: char, negative: bool) -> Result<int, IdError> {
    if !is_digit(c) {
        Err(IdError::InvalidDigit)
    } else if negative {
        if value * 10 - digit_value(c) < i32::MIN {
            Err(IdError::TooSmall)
        } else {
            Ok(value * 10 - digit_value(c))
        }
    } else {
        if value * 10 + digit_value(c) > i32::MAX {
            Err(IdError::TooLarge)
        } else {
            Ok(value * 10 + digit_value(c))
        }
    }
}

/// The number that `digits` name, or the first fault met from the left.
pub open spec fn scan(digits: Seq<char>, negative: bool) -> Result<int, IdError>
    decreases digits.len(),
{
    if digits.len() == 0 {
        Ok(0)
    } else {
        match scan(digits.drop_last(), negative) {
            Err(e) => Err(e),
            Ok(value) => scan_step(value, digits.last(), negative),
        }
    }
}

/// What `text` means as an identifier: an optional sign, then decimal digits
/// whose number fits an `i32`.
pub open spec fn parse_id(text: Seq<char>) -> Result<int, IdError> {
    if text.len() == 0 {
        Err(IdError::Empty)
    } else if text.len() == 1 && (text[0] == '+' || text[0] == '-') {
        Err(IdError::InvalidDigit)
    } else if text[0] == '+' {
        scan(text.skip(1), false)
    } else if text[0] == '-' {
        scan(text.skip(1), true)
    } else {
        scan(text, false)
    }
}

/// The decimal digits of `n`, most significant first, without leading zeros.
pub open spec fn digits_of(n: nat) -> Seq<char>
    decreases n,
{
    if n < 10 {
        seq![digit_char(n as int)]
    } else {
        digits_of(n / 10).push(digit_char((n % 10) as int))
    }
}

/// The text of the identifier `n`.
pub open spec fn id_text(n: int) -> Seq<char> {
    if n < 0 {
        seq!['-'] + digits_of((-n) as nat)
    } else {
        digits_of(n as nat)
    }
}

pub open spec fn id_error_text(e: IdError) -> Seq<char> {
    match e {
        IdError::Empty => "cannot parse integer from empty string"@,
        IdError::InvalidDigit => "invalid digit found in string"@,
        IdError::TooLarge => "number too large to fit in target type"@,
        IdError::TooSmall => "number too small to fit in target type"@,
    }
}

impl IdError {
    /// The fault in words.
    pub fn message(&self) -> (text: &'static str)
        ensures
            text@ == id_error_text(*self),
    {
        match self {
            IdError::Empty => "cannot parse integer from empty string",
            IdError::InvalidDigit => "invalid digit found in string",
            IdError::TooLarge => "number too large to fit in target type",
            IdError::TooSmall => "number too small to fit in target type",
        }
    }
}

/// A fault met in a prefix is the fault of the whole.
proof fn lemma_scan_fault_stays(digits: Seq<char>, k: int, negative: bool)
    requires
        0 <= k <= digits.len(),
        scan(digits.take(k), negative) is Err,
    ensures
        scan(digits, negative) == scan(digits.take(k), negative),
    decreases digits.len(),
{
    if k == digits.len() {
        assert(digits.take(k) =~= digits);
    } else {
        assert(digits.drop_last().take(k) =~= digits.take(k));
        lemma_scan_fault_stays(digits.drop_last(), k, negative);
    }
}

fn scan_char(value: i32, c: char, negative: bool) -> (r: Result<i32, IdError>)
    requires
        negative ==> value <= 0,
        !negative ==> value >= 0,
    ensures
        r matches Ok(v) ==> scan_step(value as int, c, negative) == Ok::<int, IdError>(v as int),
        r matches Err(e) ==> scan_step(value as int, c, negative) == Err::<int, IdError>(e),
        r matches Ok(v) ==> (negative ==> v <= 0) && (!negative ==> v >= 0),
{
    if c < '0' || c > '9' {
        return Err(IdError::InvalidDigit);
    }
    let digit: i64 = (c as u32 - '0' as u32) as i64;
    let wide: i64 = if negative {
        value as i64 * 10 - digit
    } else {
        value as i64 * 10 + digit
    };
    if wide < i32::MIN as i64 {
        Err(IdError::TooSmall)
    } else if wide > i32::MAX as i64 {
        Err(IdError::TooLarge)
    } else {
        Ok(wide as i32)
    }
}

/// The first character alone: what it makes of no digits at all.
proof fn lemma_scan_first(digits: Seq<char>, negative: bool)
    requires
        digits.len() >= 1,
    ensures
        scan(digits.take(1), negative) == scan_step(0, digits[0], negative),
{
    assert(digits.take(1).drop_last() =~= Seq::<char>::empty());
    assert(scan(Seq::<char>::empty(), negative) == Ok::<int, IdError>(0));
    assert(digits.take(1).last() == digits[0]);
}

/// One more character after `k` of them.
proof fn lemma_scan_next(digits: Seq<char>, k: int, negative: bool)
    requires
        0 <= k < digits.len(),
    ensures
        scan(digits.take(k + 1), negative) == match scan(digits.take(k), negative) {
            Err(e) => Err(e),
            Ok(value) => scan_step(value, digits[k], negative),
        },
{
    assert(digits.take(k + 1).drop_last() =~= digits.take(k));
    assert(digits.take(k + 1).last() == digits[k]);
}

/// Reads an identifier from `text`: an optional sign, then decimal digits.
pub fn parse(text: &str) -> (r: Result<i32, IdError>)
    ensures
        r matches Ok(id) ==> parse_id(text@) == Ok::<int, IdError>(id as int),
        r matches Err(e) ==> parse_id(text@) == Err::<int, IdError>(e),
{
    let mut chars = text.chars();
    let first = match chars.next() {
        None => {
            return Err(IdError::Empty);
        },
        Some(c) => c,
    };
    let negative = first == '-';
    let signed = first == '-' || first == '+';
    let ghost digits: Seq<char> = if signed {
        text@.skip(1)
    } else {
        text@
    };
    let lead = if signed {
        match chars.next() {
            None => {
                return Err(IdError::InvalidDigit);
            },
            Some(c) => c,
        }
    } else {
        first
    };
    assert(digits.len() >= 1 && lead == digits[0]);
    assert(parse_id(text@) == scan(digits, negative));
    assert(chars.remaining() =~= digits.skip(1));
    let mut value: i32 = 0;
    proof {
        lemma_scan_first(digits, negative);
    }
    match scan_char(0, lead, negative) {
        Err(e) => {
            proof {
                lemma_scan_fault_stays(digits, 1, negative);
            }
            return Err(e);
        },
        Ok(v) => {
            value = v;
        },
    }
    let ghost mut seen: int = 1;
    loop
        invariant
            1 <= seen <= digits.len(),
            chars.remaining() == digits.skip(seen),
            parse_id(text@) == scan(digits, negative),
            scan(digits.take(seen), negative) == Ok::<int, IdError>(value as int),
            negative ==> value <= 0,
            !negative ==> value >= 0,
        decreases digits.len() - seen,
    {
        match chars.next() {
            None => {
                assert(digits.take(seen) =~= digits);
                return Ok(value);
            },
            Some(c) => {
                proof {
                    lemma_scan_next(digits, seen, negative);
                    assert(digits.skip(seen).drop_first() =~= digits.skip(seen + 1));
                }
                match scan_char(value, c, negative) {
                    Err(e) => {
                        proof {
                            lemma_scan_fault_stays(digits, seen + 1, negative);
                        }
                        return Err(e);
                    },
                    Ok(v) => {
                        value = v;
                    },
                }
                proof {
                    seen = seen + 1;
                }
            },
        }
    }
}

/// The characters of digits kept lowest first, read highest first.
pub open spec fn highest_first(low: Seq<u8>) -> Seq<char> {
    Seq::new(low.len(), |i: int| digit_char(low[low.len() - 1 - i] as int))
}

fn digit_str(d: u8) -> (text: &'static str)
    requires
        d < 10,
    ensures
        text@ == seq![digit_char(d as int)],
{
    proof {
        reveal_strlit("0");
        reveal_strlit("1");
        reveal_strlit("2");
        reveal_strlit("3");
        reveal_strlit("4");
        reveal_strlit("5");
        reveal_strlit("6");
        reveal_strlit("7");
        reveal_strlit("8");
        reveal_strlit("9");
    }
    let text = match d {
        0 => "0",
        1 => "1",
        2 => "2",
        3 => "3",
        4 => "4",
        5 => "5",
        6 => "6",
        7 => "7",
        8 => "8",
        _ => "9",
    };
    assert(text@ =~= seq![digit_char(d as int)]);
    text
}

/// Writes `id` in decimal digits, with a minus sign when it is negative.
pub fn to_text(id: i32) -> (text: String)
    ensures
        text@ == id_text(id as int),
{
    let mut text = String::new();
    let magnitude: u32 = if id < 0 {
        proof {
            reveal_strlit("-");
        }
        text.append("-");
        (-(id as i64)) as u32
    } else {
        id as u32
    };
    let ghost sign: Seq<char> = text@;
    assert(sign =~= if id < 0 { seq!['-'] } else { Seq::<char>::empty() });
    let mut rest: u32 = magnitude;
    let mut low: Vec<u8> = Vec::new();
    while rest >= 10
        invariant
            digits_of(magnitude as nat) =~= digits_of(rest as nat) + highest_first(low@),
            forall|i: int| 0 <= i < low@.len() ==> low@[i] < 10,
        decreases rest,
    {
        let ghost before = low@;
        low.push((rest % 10) as u8);
        assert(highest_first(low@) =~= seq![digit_char((rest % 10) as int)] + highest_first(
            before,
        ));
        rest = rest / 10;
    }
    let ghost before = low@;
    low.push(rest as u8);
    assert(highest_first(low@) =~= seq![digit_char(rest as int)] + highest_first(before));
    assert(highest_first(low@) =~= digits_of(magnitude as nat));
    let mut i: usize = low.len();
    while i > 0
        invariant
            i <= low@.len(),
            forall|k: int| 0 <= k < low@.len() ==> low@[k] < 10,
            text@ =~= sign + highest_first(low@).take(low@.len() - i),
        decreases i,
    {
        i = i - 1;
        let ghost k = low@.len() - 1 - i;
        assert(highest_first(low@).take(k + 1) =~= highest_first(low@).take(k).push(
            digit_char(low@[i as int] as int),
        ));
        text.append(digit_str(low[i]));
    }
    assert(highest_first(low@).take(low@.len() as int) =~= highest_first(low@));
    text
}

/// The digits written for `n` are digits, and read back as `n`.
proof fn lemma_scan_digits_of(n: nat, negative: bool)
    requires
        negative ==> n <= 0x8000_0000,
        !negative ==> n <= 0x7fff_ffff,
    ensures
        digits_of(n).len() >= 1,
        forall|i: int| 0 <= i < digits_of(n).len() ==> is_digit(#[trigger] digits_of(n)[i]),
        scan(digits_of(n), negative) == Ok::<int, IdError>(
            if negative {
                -(n as int)
            } else {
                n as int
            },
        ),
    decreases n,
{
    if n < 10 {
        lemma_scan_first(digits_of(n), negative);
        assert(digits_of(n).take(1) =~= digits_of(n));
    } else {
        lemma_scan_digits_of(n / 10, negative);
        assert(digits_of(n).drop_last() =~= digits_of(n / 10));
        assert(digits_of(n).last() == digit_char((n % 10) as int));
    }
}

/// Reading the text written for an identifier gives that identifier back.
pub proof fn lemma_text_reads_back(id: int)
    requires
        i32::MIN <= id <= i32::MAX,
    ensures
        parse_id(id_text(id)) == Ok::<int, IdError>(id),
{
    if id < 0 {
        lemma_scan_digits_of((-id) as nat, true);
        assert(id_text(id).skip(1) =~= digits_of((-id) as nat));
    } else {
        lemma_scan_digits_of(id as nat, false);
        assert(is_digit(digits_of(id as nat)[0]));
    }
}

} // verus!
