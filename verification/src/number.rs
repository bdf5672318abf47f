use vstd::prelude::*;
use vstd::string::StrSliceExecFns;

verus! {

/// The byte `0`, the first of the ten digits.
pub const ZERO: u8 = 0x30;

/// The byte `-`, which stands before a negative number.
pub const MINUS: u8 = 0x2d;

/// The digits of `n` in base ten, the most significant first.
pub open spec fn digits(n: nat) -> Seq<u8>
    decreases n,
{
    if n < 10 {
        seq![(ZERO + n) as u8]
    } else {
        digits(n / 10).push((ZERO + n % 10) as u8)
    }
}

/// The text that a number is written as: its digits, after a `-` if it is
/// negative.
pub open spec fn decimal(value: int) -> Seq<u8> {
    if value < 0 {
        seq![MINUS] + digits((-value) as nat)
    } else {
        digits(value as nat)
    }
}

/// The digits of `n`, or nothing where `n` is 0.
spec fn leading(n: nat) -> Seq<u8> {
    if n == 0 {
        Seq::empty()
    } else {
        digits(n)
    }
}

/// The digits of `n` are those of `n / 10`, if it has any, and one more.
proof fn lemma_digits_split(n: nat)
    ensures
        digits(n) == leading(n / 10).push((ZERO + n % 10) as u8),
{
    if n < 10 {
        assert(digits(n) =~= Seq::<u8>::empty().push((ZERO + n % 10) as u8));
    }
}

/// The text of a number is never empty, and at most eleven bytes long.
pub proof fn lemma_decimal_len(value: i32)
    ensures
        1 <= decimal(value as int).len() <= 11,
{
    let magnitude: nat = if value < 0 {
        (-value) as nat
    } else {
        value as nat
    };
    reveal_with_fuel(digits, 11);
    assert(1 <= digits(magnitude).len() <= 10);
}

/// Writes `value` in base ten.
pub fn to_decimal(value: i32) -> (text: Vec<u8>)
    ensures
        text@ == decimal(value as int),
{
    let negative = value < 0;
    let wide: i64 = value as i64;
    let magnitude: u32 = if negative {
        (0 - wide) as u32
    } else {
        wide as u32
    };
    let mut rest: u32 = magnitude;
    let mut reversed: Vec<u8> = Vec::new();
    proof {
        lemma_digits_split(rest as nat);
    }
    reversed.push(ZERO + (rest % 10) as u8);
    rest = rest / 10;
    assert(digits(magnitude as nat) =~= leading(rest as nat) + reversed@.reverse());
    while rest > 0
        invariant
            reversed.len() > 0,
            digits(magnitude as nat) == leading(rest as nat) + reversed@.reverse(),
        decreases rest,
    {
        proof {
            lemma_digits_split(rest as nat);
        }
        let ghost before = reversed@;
        let digit: u8 = ZERO + (rest % 10) as u8;
        reversed.push(digit);
        assert(reversed@.reverse() =~= seq![digit] + before.reverse());
        assert(leading(rest as nat) + before.reverse() =~= leading((rest / 10) as nat)
            + reversed@.reverse());
        rest = rest / 10;
    }
    let mut text: Vec<u8> = Vec::new();
    if negative {
        text.push(MINUS);
    }
    let ghost sign = text@;
    let mut left: usize = reversed.len();
    assert(reversed@.reverse().take(0) =~= Seq::<u8>::empty());
    while left > 0
        invariant
            left <= reversed.len(),
            text@ == sign + reversed@.reverse().take(reversed.len() - left),
        decreases left,
    {
        left = left - 1;
        text.push(reversed[left]);
        assert(reversed@.reverse().take(reversed.len() - left) =~= reversed@.reverse().take(
            reversed.len() - left - 1,
        ).push(reversed@[left as int]));
    }
    assert(reversed@.reverse().take(reversed.len() as int) =~= reversed@.reverse());
    assert(leading(0) + reversed@.reverse() =~= reversed@.reverse());
    text
}

/// Whether `c` is white space, as Unicode defines it.
pub open spec fn is_whitespace(c: char) -> bool {
    let point = c as int;
    ||| 0x09 <= point <= 0x0d
    ||| point == 0x20
    ||| point == 0x85
    ||| point == 0xa0
    ||| point == 0x1680
    ||| 0x2000 <= point <= 0x200a
    ||| point == 0x2028
    ||| point == 0x2029
    ||| point == 0x202f
    ||| point == 0x205f
    ||| point == 0x3000
}

/// Whether `c` is one of the ten digits.
pub open spec fn is_digit(c: char) -> bool {
    ZERO <= c as int <= ZERO + 9
}

/// The text without the white space at its end.
pub open spec fn trim_end(text: Seq<char>) -> Seq<char>
    decreases text.len(),
{
    if text.len() > 0 && is_whitespace(text.last()) {
        trim_end(text.drop_last())
    } else {
        text
    }
}

/// The number that a row of digits stands for in base ten.
pub open spec fn number(digits: Seq<char>) -> nat
    decreases digits.len(),
{
    if digits.len() == 0 {
        0
    } else {
        (number(digits.drop_last()) * 10 + (digits.last() as int - ZERO)) as nat
    }
}

/// Whether the text is made of digits alone.
pub open spec fn all_digits(text: Seq<char>) -> bool {
    forall|i: int| 0 <= i < text.len() ==> is_digit(#[trigger] text[i])
}

/// Whether the text begins with a sign, `+` or `-`.
pub open spec fn is_signed(text: Seq<char>) -> bool {
    text.len() > 0 && (text[0] == '-' || text[0] == '+')
}

/// Whether the text begins with the sign `-`.
pub open spec fn is_negative(text: Seq<char>) -> bool {
    text.len() > 0 && text[0] == '-'
}

/// The text without its sign, if it has one.
pub open spec fn unsigned_part(text: Seq<char>) -> Seq<char> {
    if is_signed(text) {
        text.skip(1)
    } else {
        text
    }
}

/// The number that a text stands for: an optional sign, then one digit or
/// more and nothing else, of a value that fits in 32 bits.
pub open spec fn parse_integer(text: Seq<char>) -> Option<i32> {
    let digits = unsigned_part(text);
    let value = if is_negative(text) {
        -number(digits)
    } else {
        number(digits) as int
    };
    if digits.len() > 0 && all_digits(digits) && i32::MIN <= value <= i32::MAX {
        Some(value as i32)
    } else {
        None
    }
}

/// The number that a line of input stands for. White space at the end of the
/// line, its line break too, does not count.
pub open spec fn parse_line(line: Seq<char>) -> Option<i32> {
    parse_integer(trim_end(line))
}

/// The greatest magnitude of a 32-bit number, that of the least one.
const MAGNITUDE_LIMIT: i64 = 0x8000_0000;

/// The number that a row of digits stands for, where it is one and stands
/// for no more than the greatest magnitude.
spec fn magnitude(text: Seq<char>) -> Option<i64> {
    if all_digits(text) && number(text) <= MAGNITUDE_LIMIT {
        Some(number(text) as i64)
    } else {
        None
    }
}

/// A row of digits stands for no less than any row that it begins with.
proof fn lemma_number_grows(digits: Seq<char>, len: int)
    requires
        0 <= len <= digits.len(),
        all_digits(digits),
    ensures
        number(digits.take(len)) <= number(digits),
    decreases digits.len(),
{
    if len < digits.len() {
        let front = digits.drop_last();
        assert(front.take(len) =~= digits.take(len));
        lemma_number_grows(front, len);
    } else {
        assert(digits.take(len) =~= digits);
    }
}

/// Whether `c` is white space.
fn whitespace(c: char) -> (yes: bool)
    ensures
        yes == is_whitespace(c),
{
    let point: u32 = c as u32;
    (0x09 <= point && point <= 0x0d) || point == 0x20 || point == 0x85 || point == 0xa0 || point
        == 0x1680 || (0x2000 <= point && point <= 0x200a) || point == 0x2028 || point == 0x2029
        || point == 0x202f || point == 0x205f || point == 0x3000
}

/// Where the text of the line ends and the white space behind it begins.
fn trimmed_len(line: &str) -> (end: usize)
    ensures
        end <= line@.len(),
        line@.take(end as int) == trim_end(line@),
{
    let mut end: usize = line.unicode_len();
    assert(line@.take(end as int) =~= line@);
    while end > 0 && whitespace(line.get_char(end - 1))
        invariant
            end <= line@.len(),
            trim_end(line@) == trim_end(line@.take(end as int)),
        decreases end,
    {
        assert(line@.take(end as int).drop_last() =~= line@.take(end - 1));
        end = end - 1;
    }
    end
}

/// Reads the characters from `start` up to `end` as a row of digits.
fn parse_digits(line: &str, start: usize, end: usize) -> (found: Option<i64>)
    requires
        start <= end <= line@.len(),
    ensures
        found == magnitude(line@.subrange(start as int, end as int)),
{
    let ghost digits = line@.subrange(start as int, end as int);
    let mut sum: i64 = 0;
    let mut at: usize = start;
    assert(digits.take(0) =~= Seq::<char>::empty());
    while at < end
        invariant
            start <= at <= end <= line@.len(),
            digits == line@.subrange(start as int, end as int),
            all_digits(digits.take(at - start)),
            sum == number(digits.take(at - start)),
            sum <= MAGNITUDE_LIMIT,
        decreases end - at,
    {
        let point: u32 = line.get_char(at) as u32;
        let ghost index = at - start;
        assert(digits[index] == line@[at as int]);
        if point < 0x30 || point > 0x39 {
            assert(!is_digit(digits[index]));
            return None;
        }
        assert(digits.take(index + 1).drop_last() =~= digits.take(index));
        assert(digits.take(index + 1).last() == digits[index]);
        assert(all_digits(digits.take(index + 1))) by {
            assert forall|i: int| 0 <= i < index + 1 implies is_digit(
                #[trigger] digits.take(index + 1)[i],
            ) by {
                if i < index {
                    assert(digits.take(index)[i] == digits[i]);
                }
            }
        }
        sum = sum * 10 + (point - 0x30) as i64;
        at = at + 1;
        if sum > MAGNITUDE_LIMIT {
            proof {
                if all_digits(digits) {
                    lemma_number_grows(digits, at - start);
                }
            }
            return None;
        }
    }
    assert(digits.take(at - start) =~= digits);
    Some(sum)
}

/// Reads a line of input as a number: `None` where the line, without the
/// white space at its end, is no number of 32 bits.
pub fn parse(line: &str) -> (value: Option<i32>)
    ensures
        value == parse_line(line@),
{
    let end = trimmed_len(line);
    let ghost text = line@.take(end as int);
    if end == 0 {
        return None;
    }
    let first = line.get_char(0);
    let negative = first == '-';
    let start: usize = if negative || first == '+' {
        1
    } else {
        0
    };
    assert(unsigned_part(text) =~= line@.subrange(start as int, end as int));
    if start == end {
        return None;
    }
    match parse_digits(line, start, end) {
        None => None,
        Some(sum) => {
            if negative {
                Some((0 - sum) as i32)
            } else if sum > 0x7fff_ffff {
                None
            } else {
                Some(sum as i32)
            }
        },
    }
}

/// The bytes of a text as characters.
pub open spec fn as_chars(bytes: Seq<u8>) -> Seq<char> {
    Seq::new(bytes.len(), |i: int| bytes[i] as char)
}

/// The digits of a number are digits, and stand for that number.
pub proof fn lemma_digits_number(n: nat)
    ensures
        digits(n).len() > 0,
        all_digits(as_chars(digits(n))),
        number(as_chars(digits(n))) == n,
    decreases n,
{
    let text = as_chars(digits(n));
    let last: u8 = (ZERO + n % 10) as u8;
    assert(text.last() == last as char);
    assert(number(text) == number(text.drop_last()) * 10 + n % 10);
    if n < 10 {
        assert(text.drop_last() =~= Seq::<char>::empty());
    } else {
        lemma_digits_number(n / 10);
        let front = as_chars(digits(n / 10));
        assert(text.drop_last() =~= front);
        assert forall|i: int| 0 <= i < text.len() implies is_digit(#[trigger] text[i]) by {
            if i < front.len() {
                assert(text[i] == front[i]);
            }
        }
    }
}

/// A number that was written is read back as itself.
pub proof fn lemma_decimal_round_trip(value: i32)
    ensures
        parse_line(as_chars(decimal(value as int))) == Some(value),
{
    let text = as_chars(decimal(value as int));
    if value < 0 {
        let n = (-value) as nat;
        lemma_digits_number(n);
        assert(text.skip(1) =~= as_chars(digits(n)));
        assert(text.last() == as_chars(digits(n)).last());
    } else {
        lemma_digits_number(value as nat);
    }
    assert(is_digit(text.last()));
}

} // verus!
