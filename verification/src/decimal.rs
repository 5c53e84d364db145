//! Whole numbers as decimal text, read and written.
//!
//! The text of a number is an optional sign followed by one or more of the
//! digits `0` to `9` and nothing else: no blanks, no separators. Written
//! numbers carry a sign only when they are negative, and no leading zeros.

use vstd::prelude::*;
use vstd::string::*;

verus! {

/// Whether `c` is one of the digits `0` to `9`.
pub open spec fn is_digit(c: char) -> bool {
    '0' <= c <= '9'
}

/// Whether `text` holds digits only.
pub open spec fn is_digits(text: Seq<char>) -> bool {
    forall|i: int| 0 <= i < text.len() ==> is_digit(#[trigger] text[i])
}

/// The number that the digits of `text` write.
pub open spec fn digits_value(text: Seq<char>) -> int
    decreases text.len(),
{
    if text.len() == 0 {
        0
    } else {
        10 * digits_value(text.drop_last()) + (text.last() as int - '0' as int)
    }
}

/// The number that `digits` write, if they are digits and at least one.
pub open spec fn unsigned_value(digits: Seq<char>) -> Option<int> {
    if digits.len() > 0 && is_digits(digits) {
        Some(digits_value(digits))
    } else {
        None
    }
}

/// The number that `text` writes: digits, which a `+` may precede and, where
/// `signed`, a `-`.
pub open spec fn decimal_value(text: Seq<char>, signed: bool) -> Option<int> {
    if text.len() == 0 {
        None
    } else if text[0] == '+' {
        unsigned_value(text.skip(1))
    } else if text[0] == '-' {
        if signed {
            match unsigned_value(text.skip(1)) {
                Some(value) => Some(-value),
                None => None,
            }
        } else {
            None
        }
    } else {
        unsigned_value(text)
    }
}

/// The number that `text` writes, if it lies between `low` and `high`. A `-`
/// is a sign only where `low` is negative.
pub open spec fn decimal_within(text: Seq<char>, low: int, high: int) -> Option<int> {
    match decimal_value(text, low < 0) {
        Some(value) => if low <= value <= high {
            Some(value)
        } else {
            None
        },
        None => None,
    }
}

/// The digit for `d`, which is below ten.
pub open spec fn digit_char(d: int) -> char {
    (d + '0' as int) as char
}

/// The digits that write `n`, without leading zeros.
pub open spec fn digits_text(n: nat) -> Seq<char>
    decreases n,
{
    if n < 10 {
        seq![digit_char(n as int)]
    } else {
        digits_text(n / 10).push(digit_char((n % 10) as int))
    }
}

/// The text that writes `n`.
pub open spec fn decimal_text(n: int) -> Seq<char> {
    if n < 0 {
        seq!['-'] + digits_text((-n) as nat)
    } else {
        digits_text(n as nat)
    }
}

/// More digits never write a smaller number.
pub proof fn lemma_digits_grow(text: Seq<char>, k: int)
    requires
        is_digits(text),
        0 <= k <= text.len(),
    ensures
        0 <= digits_value(text.take(k)) <= digits_value(text),
    decreases text.len() - k,
{
    lemma_digits_nonnegative(text.take(k));
    if k < text.len() {
        lemma_digits_grow(text, k + 1);
        assert(text.take(k + 1).drop_last() =~= text.take(k));
        assert(is_digit(text[k]));
        assert(text.take(k + 1).last() == text[k]);
    } else {
        assert(text.take(k) =~= text);
    }
}

/// Digits write a number that is not negative.
pub proof fn lemma_digits_nonnegative(text: Seq<char>)
    requires
        is_digits(text),
    ensures
        0 <= digits_value(text),
    decreases text.len(),
{
    if text.len() > 0 {
        assert(is_digits(text.drop_last())) by {
            assert forall|i: int| 0 <= i < text.drop_last().len() implies is_digit(
                #[trigger] text.drop_last()[i],
            ) by {
                assert(text.drop_last()[i] == text[i]);
            }
        }
        lemma_digits_nonnegative(text.drop_last());
        assert(is_digit(text[text.len() - 1]));
    }
}

/// The digits written for a number write that number.
pub proof fn lemma_digits_text_reads_back(n: nat)
    ensures
        digits_text(n).len() > 0,
        is_digits(digits_text(n)),
        digits_value(digits_text(n)) == n,
    decreases n,
{
    if n < 10 {
        let text = digits_text(n);
        assert(text.drop_last() =~= Seq::<char>::empty());
        assert(digits_value(text.drop_last()) == 0);
        assert(text.last() == digit_char(n as int));
    } else {
        lemma_digits_text_reads_back(n / 10);
        let head = digits_text(n / 10);
        let text = digits_text(n);
        assert(text.drop_last() =~= head);
        assert(text.last() == digit_char((n % 10) as int));
        assert forall|i: int| 0 <= i < text.len() implies is_digit(#[trigger] text[i]) by {
            if i < head.len() {
                assert(text[i] == head[i]);
            }
        }
    }
}

/// Every number is read back from the text that writes it.
pub proof fn lemma_decimal_round_trip(n: int)
    ensures
        decimal_value(decimal_text(n), true) == Some(n),
        n >= 0 ==> decimal_value(decimal_text(n), false) == Some(n),
        forall|low: int, high: int|
            low <= n <= high && (low < 0 || n >= 0) ==> #[trigger] decimal_within(
                decimal_text(n),
                low,
                high,
            ) == Some(n),
{
    if n < 0 {
        let digits = digits_text((-n) as nat);
        lemma_digits_text_reads_back((-n) as nat);
        let text = decimal_text(n);
        assert(text[0] == '-');
        assert(text.skip(1) =~= digits);
    } else {
        let digits = digits_text(n as nat);
        lemma_digits_text_reads_back(n as nat);
        assert(is_digit(digits[0]));
    }
}

fn digit_at(text: &str, at: usize) -> (digit: Option<u8>)
    requires
        at < text@.len(),
    ensures
        digit is Some <==> is_digit(text@[at as int]),
        digit matches Some(d) ==> d == text@[at as int] as int - '0' as int && d < 10,
{
    let code = text.get_char(at) as u32;
    if 48 <= code && code <= 57 {
        Some((code - 48) as u8)
    } else {
        None
    }
}

/// Reads the number that `text` writes, if it lies between `low` and `high`.
/// The bounds enclose zero and fit in 64 bits, signed or unsigned.
fn parse_within(text: &str, low: i128, high: i128) -> (number: Option<i128>)
    requires
        -0x8000_0000_0000_0000 <= low <= 0 <= high <= 0xffff_ffff_ffff_ffff,
    ensures
        number is Some <==> decimal_within(text@, low as int, high as int) is Some,
        number matches Some(value) ==> decimal_within(text@, low as int, high as int) == Some(
            value as int,
        ),
{
    let n = text.unicode_len();
    if n == 0 {
        return None;
    }
    let first = text.get_char(0) as u32;
    let negative = first == 45;
    if negative && low == 0 {
        return None;
    }
    let start: usize = if first == 43 || first == 45 { 1 } else { 0 };
    if start == n {
        assert(text@.skip(1).len() == 0);
        return None;
    }
    let ghost digits = text@.skip(start as int);
    proof {
        if start == 0 {
            assert(digits =~= text@);
        }
        assert(decimal_value(text@, low < 0) == (if negative {
            match unsigned_value(digits) {
                Some(value) => Some(-value),
                None => None,
            }
        } else {
            unsigned_value(digits)
        }));
    }
    let bound: i128 = if negative { -low } else { high };
    let mut value: i128 = 0;
    let mut i: usize = start;
    while i < n
        invariant
            n == text@.len(),
            start <= i <= n,
            start < n,
            digits == text@.skip(start as int),
            decimal_value(text@, low < 0) == (if negative {
                match unsigned_value(digits) {
                    Some(value) => Some(-value),
                    None => None,
                }
            } else {
                unsigned_value(digits)
            }),
            bound == (if negative { -low } else { high as int }),
            is_digits(digits.take(i - start)),
            value == digits_value(digits.take(i - start)),
            0 <= value <= bound <= 0xffff_ffff_ffff_ffff,
        decreases n - i,
    {
        let ghost before = digits.take(i - start);
        let ghost after = digits.take(i - start + 1);
        proof {
            assert(after.drop_last() =~= before);
            assert(after.last() == text@[i as int]);
        }
        match digit_at(text, i) {
            None => {
                assert(!is_digits(digits)) by {
                    assert(digits[i - start] == text@[i as int]);
                }
                return None;
            },
            Some(d) => {
                value = value * 10 + d as i128;
                proof {
                    assert forall|k: int| 0 <= k < after.len() implies is_digit(
                        #[trigger] after[k],
                    ) by {
                        if k < before.len() {
                            assert(after[k] == before[k]);
                        }
                    }
                }
                if value > bound {
                    proof {
                        if is_digits(digits) {
                            lemma_digits_grow(digits, i - start + 1);
                        }
                    }
                    return None;
                }
            },
        }
        i = i + 1;
    }
    proof {
        assert(digits.take(n - start) =~= digits);
    }
    if negative {
        Some(-value)
    } else {
        Some(value)
    }
}

/// Reads a number that fits in 16 bits without a sign.
pub fn parse_u16(text: &str) -> (number: Option<u16>)
    ensures
        number is Some <==> decimal_within(text@, 0, u16::MAX as int) is Some,
        number matches Some(value) ==> decimal_within(text@, 0, u16::MAX as int) == Some(
            value as int,
        ),
{
    match parse_within(text, 0, 0xffff) {
        Some(value) => Some(value as u16),
        None => None,
    }
}

/// Reads a number that fits in 32 bits without a sign.
pub fn parse_u32(text: &str) -> (number: Option<u32>)
    ensures
        number is Some <==> decimal_within(text@, 0, u32::MAX as int) is Some,
        number matches Some(value) ==> decimal_within(text@, 0, u32::MAX as int) == Some(
            value as int,
        ),
{
    match parse_within(text, 0, 0xffff_ffff) {
        Some(value) => Some(value as u32),
        None => None,
    }
}

/// Reads a number that fits in 64 bits without a sign.
pub fn parse_u64(text: &str) -> (number: Option<u64>)
    ensures
        number is Some <==> decimal_within(text@, 0, u64::MAX as int) is Some,
        number matches Some(value) ==> decimal_within(text@, 0, u64::MAX as int) == Some(
            value as int,
        ),
{
    match parse_within(text, 0, 0xffff_ffff_ffff_ffff) {
        Some(value) => Some(value as u64),
        None => None,
    }
}

/// Reads a number that fits in 32 bits with a sign.
pub fn parse_i32(text: &str) -> (number: Option<i32>)
    ensures
        number is Some <==> decimal_within(text@, i32::MIN as int, i32::MAX as int) is Some,
        number matches Some(value) ==> decimal_within(text@, i32::MIN as int, i32::MAX as int)
            == Some(value as int),
{
    match parse_within(text, -0x8000_0000, 0x7fff_ffff) {
        Some(value) => Some(value as i32),
        None => None,
    }
}

/// Reads a number that fits in 64 bits with a sign.
pub fn parse_i64(text: &str) -> (number: Option<i64>)
    ensures
        number is Some <==> decimal_within(text@, i64::MIN as int, i64::MAX as int) is Some,
        number matches Some(value) ==> decimal_within(text@, i64::MIN as int, i64::MAX as int)
            == Some(value as int),
{
    match parse_within(text, -0x8000_0000_0000_0000, 0x7fff_ffff_ffff_ffff) {
        Some(value) => Some(value as i64),
        None => None,
    }
}

fn digit_text(d: u32) -> (text: &'static str)
    requires
        d < 10,
    ensures
        text@ == seq![digit_char(d as int)],
{
    proof {
        reveal_strlit("0");
        reveal_strlit("1");
        reveal_strlit("2");
        reveal_strlit("3");
        reveal_strlit("4");
        reveal_strlit("5");
        reveal_strlit("6");
        reveal_strlit("7");
        reveal_strlit("8");
        reveal_strlit("9");
    }
    let text = if d == 0 {
        "0"
    } else if d == 1 {
        "1"
    } else if d == 2 {
        "2"
    } else if d == 3 {
        "3"
    } else if d == 4 {
        "4"
    } else if d == 5 {
        "5"
    } else if d == 6 {
        "6"
    } else if d == 7 {
        "7"
    } else if d == 8 {
        "8"
    } else {
        "9"
    };
    assert(text@ =~= seq![digit_char(d as int)]);
    text
}

fn write_digits(n: u32, out: &mut String)
    ensures
        final(out)@ == old(out)@ + digits_text(n as nat),
    decreases n,
{
    if n >= 10 {
        write_digits(n / 10, out);
    }
    out.append(digit_text(n % 10));
    proof {
        if n >= 10 {
            assert(final(out)@ =~= old(out)@ + digits_text(n as nat));
        } else {
            assert(final(out)@ =~= old(out)@ + digits_text(n as nat));
        }
    }
}

/// Writes `n` as text.
pub fn i32_to_text(n: i32) -> (text: String)
    ensures
        text@ == decimal_text(n as int),
{
    let mut text = String::new();
    if n < 0 {
        proof {
            reveal_strlit("-");
        }
        text.append("-");
        assert(text@ =~= seq!['-']);
        let magnitude = (-(n as i64)) as u32;
        write_digits(magnitude, &mut text);
    } else {
        write_digits(n as u32, &mut text);
        assert(text@ =~= decimal_text(n as int));
    }
    text
}

} // verus!
