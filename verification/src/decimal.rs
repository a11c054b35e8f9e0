//! The text form of an amount: an optional minus sign, one or more digits,
//! and optionally a point followed by one to four digits.
//!
//! Nothing else is an amount: no plus sign, no exponent, no blanks, no
//! digit separators, and no more precision than an amount can hold.

use crate::model::EngineError;
use crate::money::{fits, Money, DECIMALS, SCALE};
use crate::text::lemma_first_index;
use vstd::prelude::*;
use vstd::string::*;
use vstd::utf8::*;

verus! {

/// Whether `c` is one of the ten decimal digits.
pub open spec fn is_digit(c: char) -> bool {
    '0' <= c <= '9'
}

/// The value of the digit `c`.
pub open spec fn digit_value(c: char) -> int {
    c as int - '0' as int
}

/// Whether `s` holds digits only.
pub open spec fn all_digits(s: Seq<char>) -> bool {
    forall|i: int| 0 <= i < s.len() ==> is_digit(#[trigger] s[i])
}

/// The number that the digits `s` write in base ten; zero for no digits.
pub open spec fn number(s: Seq<char>) -> int
    decreases s.len(),
{
    if s.len() == 0 {
        0
    } else {
        number(s.drop_last()) * 10 + digit_value(s.last())
    }
}

/// Whether the text starts with a minus sign.
pub open spec fn is_negated(text: Seq<char>) -> bool {
    text.len() > 0 && text[0] == '-'
}

/// The text without its minus sign, if it has one.
pub open spec fn unsigned_part(text: Seq<char>) -> Seq<char> {
    if is_negated(text) {
        text.skip(1)
    } else {
        text
    }
}

/// What stands before the first point, or everything if there is no point.
pub open spec fn whole_part(text: Seq<char>) -> Seq<char> {
    let body = unsigned_part(text);
    match body.index_of_first('.') {
        Some(point) => body.take(point),
        None => body,
    }
}

/// What stands after the first point, if there is a point.
pub open spec fn fraction_part(text: Seq<char>) -> Option<Seq<char>> {
    let body = unsigned_part(text);
    match body.index_of_first('.') {
        Some(point) => Some(body.skip(point + 1)),
        None => None,
    }
}

/// Whether the text is an amount: digits before the point, and after the
/// point, if there is one, between one and four digits.
pub open spec fn well_formed(text: Seq<char>) -> bool {
    &&& whole_part(text).len() > 0
    &&& all_digits(whole_part(text))
    &&& fraction_part(text) matches Some(fraction) ==> {
        &&& 1 <= fraction.len() <= DECIMALS
        &&& all_digits(fraction)
    }
}

/// How many ten-thousandths one unit of a fraction of `len` digits is worth.
pub open spec fn fraction_unit(len: nat) -> int {
    if len <= 1 {
        1000
    } else if len == 2 {
        100
    } else if len == 3 {
        10
    } else {
        1
    }
}

/// The ten-thousandths that a well-formed text stands for, its sign aside.
pub open spec fn magnitude(text: Seq<char>) -> int {
    number(whole_part(text)) * SCALE + match fraction_part(text) {
        Some(fraction) => number(fraction) * fraction_unit(fraction.len()),
        None => 0,
    }
}

/// The ten-thousandths that a well-formed text stands for.
pub open spec fn value(text: Seq<char>) -> int {
    if is_negated(text) {
        -magnitude(text)
    } else {
        magnitude(text)
    }
}

/// The amount that a text stands for: malformed if it is not an amount, out
/// of range if it is one that cannot be held.
pub open spec fn parsed(text: Seq<char>) -> Result<Money, EngineError> {
    if !well_formed(text) {
        Err(EngineError::MalformedAmount)
    } else if !fits(value(text)) {
        Err(EngineError::AmountOutOfRange)
    } else {
        Ok(Money { units: value(text) as i64 })
    }
}

/// The byte of the digit zero.
pub const DIGIT_ZERO: u8 = 48;

/// The byte of the digit nine.
pub const DIGIT_NINE: u8 = 57;

/// The byte of the minus sign.
pub const MINUS: u8 = 45;

/// The byte of the decimal point.
pub const POINT: u8 = 46;

/// The largest whole part of an amount that can be held.
pub const WHOLE_MAX: u64 = 922_337_203_685_477;

/// Whether `bytes` is the ASCII text `chars`, byte for character.
pub open spec fn mirrors(bytes: Seq<u8>, chars: Seq<char>) -> bool {
    &&& bytes.len() == chars.len()
    &&& forall|i: int|
        0 <= i < chars.len() ==> '\0' <= (#[trigger] chars[i]) <= '\u{7f}' && bytes[i]
            == chars[i] as u8
}

/// What a byte of an ASCII text says of the character it stands for.
proof fn lemma_mirrored_byte(bytes: Seq<u8>, chars: Seq<char>, at: int)
    requires
        mirrors(bytes, chars),
        0 <= at < chars.len(),
    ensures
        bytes[at] as int == chars[at] as int,
        is_digit(chars[at]) <==> DIGIT_ZERO <= bytes[at] <= DIGIT_NINE,
        is_digit(chars[at]) ==> digit_value(chars[at]) == bytes[at] - DIGIT_ZERO,
        chars[at] == '-' <==> bytes[at] == MINUS,
        chars[at] == '.' <==> bytes[at] == POINT,
{
    let c = chars[at];
    assert('\0' <= c <= '\u{7f}' && bytes[at] == c as u8);
}

/// The number of a run of digits is not negative, and one more digit makes it
/// ten times as large plus the digit.
proof fn lemma_number_step(s: Seq<char>, from: int, to: int)
    requires
        0 <= from <= to < s.len(),
        all_digits(s.subrange(from, to)),
        is_digit(s[to]),
    ensures
        0 <= number(s.subrange(from, to)),
        number(s.subrange(from, to + 1)) == number(s.subrange(from, to)) * 10 + digit_value(s[to]),
        all_digits(s.subrange(from, to + 1)),
    decreases to - from,
{
    let run = s.subrange(from, to);
    let longer = s.subrange(from, to + 1);
    assert(longer.drop_last() =~= run);
    assert(longer.last() == s[to]);
    if from < to {
        assert(run.drop_last() =~= s.subrange(from, to - 1));
        assert(all_digits(s.subrange(from, to - 1))) by {
            assert forall|i: int| 0 <= i < to - 1 - from implies is_digit(
                #[trigger] s.subrange(from, to - 1)[i],
            ) by {
                assert(s.subrange(from, to - 1)[i] == run[i]);
            }
        }
        assert(is_digit(run.last())) by {
            assert(run.last() == run[to - from - 1]);
        }
        lemma_number_step(s, from, to - 1);
    }
    assert forall|i: int| 0 <= i < longer.len() implies is_digit(#[trigger] longer[i]) by {
        if i < to - from {
            assert(longer[i] == run[i]);
        }
    }
}

/// A run of at most four digits writes a number below ten thousand.
proof fn lemma_number_small(s: Seq<char>)
    requires
        all_digits(s),
        s.len() <= 4,
    ensures
        0 <= number(s),
        s.len() == 0 ==> number(s) == 0,
        s.len() == 1 ==> number(s) < 10,
        s.len() == 2 ==> number(s) < 100,
        s.len() == 3 ==> number(s) < 1000,
        s.len() == 4 ==> number(s) < 10000,
    decreases s.len(),
{
    if s.len() > 0 {
        assert(is_digit(s.last())) by {
            assert(s.last() == s[s.len() - 1]);
        }
        assert(all_digits(s.drop_last())) by {
            assert forall|i: int| 0 <= i < s.drop_last().len() implies is_digit(
                #[trigger] s.drop_last()[i],
            ) by {
                assert(s.drop_last()[i] == s[i]);
            }
        }
        lemma_number_small(s.drop_last());
    }
}

/// Reads digits from `from` on and stops at the first byte that is not a
/// digit. Returns where it stopped and the number read, or no number if that
/// number is above [`WHOLE_MAX`].
pub(crate) fn scan_digits(bytes: &[u8], chars: Ghost<Seq<char>>, from: usize) -> (r: (
    usize,
    Option<u64>,
))
    requires
        mirrors(bytes@, chars@),
        from <= bytes@.len(),
    ensures
        from <= r.0 <= bytes@.len(),
        all_digits(chars@.subrange(from as int, r.0 as int)),
        r.0 < bytes@.len() ==> !is_digit(chars@[r.0 as int]),
        match r.1 {
            Some(n) => n == number(chars@.subrange(from as int, r.0 as int)) && n <= WHOLE_MAX,
            None => number(chars@.subrange(from as int, r.0 as int)) > WHOLE_MAX,
        },
{
    let mut at: usize = from;
    let mut read: Option<u64> = Some(0);
    assert(chars@.subrange(from as int, from as int) =~= Seq::<char>::empty());
    while at < bytes.len() && DIGIT_ZERO <= bytes[at] && bytes[at] <= DIGIT_NINE
        invariant
            mirrors(bytes@, chars@),
            from <= at <= bytes@.len(),
            all_digits(chars@.subrange(from as int, at as int)),
            match read {
                Some(n) => n == number(chars@.subrange(from as int, at as int)) && n
                    <= WHOLE_MAX,
                None => number(chars@.subrange(from as int, at as int)) > WHOLE_MAX,
            },
        decreases bytes@.len() - at,
    {
        let digit: u64 = (bytes[at] - DIGIT_ZERO) as u64;
        proof {
            lemma_mirrored_byte(bytes@, chars@, at as int);
            lemma_number_step(chars@, from as int, at as int);
        }
        read = match read {
            Some(n) if n <= (WHOLE_MAX - digit) / 10 => Some(n * 10 + digit),
            _ => None,
        };
        at += 1;
    }
    proof {
        if at < bytes@.len() {
            lemma_mirrored_byte(bytes@, chars@, at as int);
        }
    }
    (at, read)
}

/// Where the first point of `body` is, given that there is none before
/// `stop` and that `stop` is the end or holds something that is no digit.
proof fn lemma_first_point(body: Seq<char>, stop: int)
    requires
        0 <= stop <= body.len(),
        all_digits(body.take(stop)),
    ensures
        stop == body.len() ==> body.index_of_first('.') is None,
        stop < body.len() && body[stop] == '.' ==> body.index_of_first('.') == Some(stop),
        stop < body.len() && body[stop] != '.' ==> match body.index_of_first('.') {
            Some(point) => stop < point < body.len(),
            None => true,
        },
{
    body.index_of_first_ensures('.');
    assert forall|j: int| 0 <= j < stop implies body[j] != '.' by {
        assert(body.take(stop)[j] == body[j]);
        assert(is_digit(body.take(stop)[j]));
    }
    match body.index_of_first('.') {
        Some(point) => {
            if point < stop {
                assert(body[point] != '.');
            }
            if stop < body.len() && body[stop] == '.' && stop < point {
                assert(body[stop] != '.');
            }
        },
        None => {
            if stop < body.len() && body[stop] == '.' {
                assert(body.contains('.'));
            }
        },
    }
}

impl Money {
    /// Reads an amount from its text form.
    pub fn parse(text: &str) -> (result: Result<Money, EngineError>)
        ensures
            result == parsed(text@),
    {
        let ghost chars = text@;
        let ghost body = unsigned_part(chars);
        if !text.is_ascii() {
            proof {
                lemma_amount_is_ascii(chars);
            }
            return Err(EngineError::MalformedAmount);
        }
        let bytes = text.as_bytes();
        proof {
            is_ascii_chars_encode_utf8(chars);
            assert(mirrors(bytes@, chars));
        }
        let len = bytes.len();
        let negative = len > 0 && bytes[0] == MINUS;
        let start: usize = if negative {
            1
        } else {
            0
        };
        proof {
            if len > 0 {
                lemma_mirrored_byte(bytes@, chars, 0);
            }
            assert(negative == is_negated(chars));
            assert(body.len() == len - start);
        }
        let (stop, whole) = scan_digits(bytes, Ghost(chars), start);
        proof {
            assert(body.take(stop - start) =~= chars.subrange(start as int, stop as int));
            lemma_first_point(body, stop - start);
            if stop < len {
                lemma_mirrored_byte(bytes@, chars, stop as int);
                assert(body[stop - start] == chars[stop as int]);
            }
        }
        if stop == start {
            proof {
                if stop < len && body[0] != '.' {
                    match body.index_of_first('.') {
                        Some(point) => {
                            assert(whole_part(chars)[0] == body[0]);
                        },
                        None => {},
                    }
                }
            }
            return Err(EngineError::MalformedAmount);
        }
        let mut fraction: u64 = 0;
        if stop < len {
            if bytes[stop] != POINT {
                proof {
                    assert(whole_part(chars)[stop - start] == body[stop - start]);
                }
                return Err(EngineError::MalformedAmount);
            }
            let (end, read) = scan_digits(bytes, Ghost(chars), stop + 1);
            let digits = end - (stop + 1);
            proof {
                assert(whole_part(chars) =~= chars.subrange(start as int, stop as int));
                assert(fraction_part(chars) == Some(body.skip(stop - start + 1)));
                if end < len {
                    assert(body.skip(stop - start + 1)[end - stop - 1] == chars[end as int]);
                } else {
                    assert(body.skip(stop - start + 1) =~= chars.subrange(
                        stop + 1,
                        end as int,
                    ));
                }
            }
            if end < len || digits == 0 || digits > DECIMALS {
                return Err(EngineError::MalformedAmount);
            }
            proof {
                lemma_number_small(chars.subrange(stop + 1, end as int));
            }
            let unit: u64 = if digits == 1 {
                1000
            } else if digits == 2 {
                100
            } else if digits == 3 {
                10
            } else {
                1
            };
            fraction = match read {
                Some(n) => n * unit,
                None => 0,
            };
            assert(fraction == magnitude(chars) - number(whole_part(chars)) * SCALE);
        } else {
            proof {
                assert(whole_part(chars) =~= chars.subrange(start as int, stop as int));
            }
        }
        assert(well_formed(chars));
        assert(fraction < 10000);
        match whole {
            Some(n) => {
                let size: u64 = n * 10000 + fraction;
                if negative {
                    if size > 9_223_372_036_854_775_808 {
                        Err(EngineError::AmountOutOfRange)
                    } else if size == 9_223_372_036_854_775_808 {
                        Ok(Money { units: i64::MIN })
                    } else {
                        Ok(Money { units: -(size as i64) })
                    }
                } else {
                    if size > 9_223_372_036_854_775_807 {
                        Err(EngineError::AmountOutOfRange)
                    } else {
                        Ok(Money { units: size as i64 })
                    }
                }
            },
            None => Err(EngineError::AmountOutOfRange),
        }
    }
}

/// An amount is written in ASCII: a text with any other character is
/// malformed.
proof fn lemma_amount_is_ascii(text: Seq<char>)
    requires
        !is_ascii_chars(text),
    ensures
        !well_formed(text),
{
    let body = unsigned_part(text);
    body.index_of_first_ensures('.');
    if well_formed(text) {
        let i = choose|i: int| 0 <= i < text.len() && !('\0' <= #[trigger] text[i] <= '\u{7f}');
        let shift: int = if is_negated(text) {
            1
        } else {
            0
        };
        if i >= shift {
            let k = i - shift;
            assert(body[k] == text[i]);
            match body.index_of_first('.') {
                Some(point) => {
                    if k < point {
                        assert(whole_part(text)[k] == body[k]);
                        assert(is_digit(whole_part(text)[k]));
                    } else if k > point {
                        let fraction = fraction_part(text)->0;
                        assert(fraction[k - point - 1] == body[k]);
                        assert(is_digit(fraction[k - point - 1]));
                    }
                },
                None => {
                    assert(is_digit(whole_part(text)[k]));
                },
            }
        }
    }
}

/// The character that writes the digit `d`.
pub open spec fn digit_char(d: int) -> char {
    if d <= 0 {
        '0'
    } else if d == 1 {
        '1'
    } else if d == 2 {
        '2'
    } else if d == 3 {
        '3'
    } else if d == 4 {
        '4'
    } else if d == 5 {
        '5'
    } else if d == 6 {
        '6'
    } else if d == 7 {
        '7'
    } else if d == 8 {
        '8'
    } else {
        '9'
    }
}

/// The digits that write `n` in base ten, without leading zeros.
pub open spec fn digits(n: nat) -> Seq<char>
    decreases n,
{
    if n < 10 {
        seq![digit_char(n as int)]
    } else {
        digits(n / 10).push(digit_char((n % 10) as int))
    }
}

/// The four digits that write a number of ten-thousandths below one unit.
pub open spec fn fraction_digits(f: nat) -> Seq<char> {
    seq![
        digit_char((f / 1000) as int),
        digit_char((f / 100 % 10) as int),
        digit_char((f / 10 % 10) as int),
        digit_char((f % 10) as int),
    ]
}

/// The text form of an amount of `units` ten-thousandths: a minus sign if it
/// is below zero, the whole units, a point, and four fractional digits.
pub open spec fn text_of(units: int) -> Seq<char> {
    let size = if units < 0 {
        -units
    } else {
        units
    };
    let sign = if units < 0 {
        seq!['-']
    } else {
        Seq::<char>::empty()
    };
    sign + digits((size / SCALE as int) as nat) + seq!['.'] + fraction_digits(
        (size % SCALE as int) as nat,
    )
}

/// The one-character text of the digit `d`.
fn digit_str(d: u64) -> (s: &'static str)
    requires
        d < 10,
    ensures
        s@ == seq![digit_char(d as int)],
{
    proof {
        reveal_strlit("0");
        reveal_strlit("1");
        reveal_strlit("2");
        reveal_strlit("3");
        reveal_strlit("4");
        reveal_strlit("5");
        reveal_strlit("6");
        reveal_strlit("7");
        reveal_strlit("8");
        reveal_strlit("9");
    }
    let s = match d {
        0 => "0",
        1 => "1",
        2 => "2",
        3 => "3",
        4 => "4",
        5 => "5",
        6 => "6",
        7 => "7",
        8 => "8",
        _ => "9",
    };
    assert(s@ =~= seq![digit_char(d as int)]);
    s
}

/// Appends the digits of `n` to `text`.
pub(crate) fn append_digits(text: &mut String, n: u64)
    ensures
        final(text)@ == old(text)@ + digits(n as nat),
    decreases n,
{
    if n >= 10 {
        append_digits(text, n / 10);
    }
    text.append(digit_str(n % 10));
    assert(text@ =~= old(text)@ + digits(n as nat));
}

impl Money {
    /// Writes the amount in its text form, with all four fractional digits.
    pub fn to_text(&self) -> (text: String)
        ensures
            text@ == text_of(self@),
    {
        let negative = self.units < 0;
        let size: u64 = if self.units == i64::MIN {
            9_223_372_036_854_775_808
        } else if negative {
            (-self.units) as u64
        } else {
            self.units as u64
        };
        let whole = size / 10000;
        let fraction = size % 10000;
        let mut text = String::new();
        if negative {
            proof {
                reveal_strlit("-");
            }
            text.append("-");
            assert(text@ =~= seq!['-']);
        }
        append_digits(&mut text, whole);
        proof {
            reveal_strlit(".");
        }
        text.append(".");
        text.append(digit_str(fraction / 1000));
        text.append(digit_str(fraction / 100 % 10));
        text.append(digit_str(fraction / 10 % 10));
        text.append(digit_str(fraction % 10));
        assert(text@ =~= text_of(self@));
        text
    }
}

/// What the character of a digit is: a digit with the digit's value, and
/// neither a point nor a minus sign.
proof fn lemma_digit_char(d: int)
    requires
        0 <= d <= 9,
    ensures
        is_digit(digit_char(d)),
        digit_value(digit_char(d)) == d,
        digit_char(d) != '.',
        digit_char(d) != '-',
{
}

/// One more digit behind a run of digits makes its number ten times as large
/// plus the digit.
proof fn lemma_number_push(s: Seq<char>, c: char)
    ensures
        number(s.push(c)) == number(s) * 10 + digit_value(c),
{
    assert(s.push(c).drop_last() =~= s);
    assert(s.push(c).last() == c);
}

/// The digits of a number are digits, there is at least one of them, and
/// they write that number.
pub proof fn lemma_digits_write_number(n: nat)
    ensures
        digits(n).len() >= 1,
        all_digits(digits(n)),
        number(digits(n)) == n,
    decreases n,
{
    if n < 10 {
        lemma_digit_char(n as int);
        lemma_number_push(Seq::<char>::empty(), digit_char(n as int));
        assert(digits(n) =~= Seq::<char>::empty().push(digit_char(n as int)));
    } else {
        lemma_digits_write_number(n / 10);
        lemma_digit_char((n % 10) as int);
        lemma_number_push(digits(n / 10), digit_char((n % 10) as int));
        assert forall|i: int| 0 <= i < digits(n).len() implies is_digit(
            #[trigger] digits(n)[i],
        ) by {
            if i < digits(n / 10).len() {
                assert(digits(n)[i] == digits(n / 10)[i]);
            }
        }
    }
}

/// The four fractional digits are digits and write the number they stand for.
proof fn lemma_fraction_digits_write_number(f: nat)
    requires
        f < 10000,
    ensures
        fraction_digits(f).len() == 4,
        all_digits(fraction_digits(f)),
        number(fraction_digits(f)) == f,
{
    let a = digit_char((f / 1000) as int);
    let b = digit_char((f / 100 % 10) as int);
    let c = digit_char((f / 10 % 10) as int);
    let d = digit_char((f % 10) as int);
    lemma_digit_char((f / 1000) as int);
    lemma_digit_char((f / 100 % 10) as int);
    lemma_digit_char((f / 10 % 10) as int);
    lemma_digit_char((f % 10) as int);
    let none = Seq::<char>::empty();
    lemma_number_push(none, a);
    lemma_number_push(none.push(a), b);
    lemma_number_push(none.push(a).push(b), c);
    lemma_number_push(none.push(a).push(b).push(c), d);
    assert(fraction_digits(f) =~= none.push(a).push(b).push(c).push(d));
}

/// Reading the text form of an amount gives the amount back.
pub proof fn law_text_round_trip(units: int)
    requires
        fits(units),
    ensures
        parsed(text_of(units)) == Ok::<Money, EngineError>(Money { units: units as i64 }),
{
    let size = if units < 0 {
        -units
    } else {
        units
    };
    let whole = (size / SCALE as int) as nat;
    let part = (size % SCALE as int) as nat;
    let text = text_of(units);
    let before = digits(whole);
    let after = fraction_digits(part);
    lemma_digits_write_number(whole);
    lemma_fraction_digits_write_number(part);
    let body = before + seq!['.'] + after;
    assert(is_digit(before[0]));
    if units < 0 {
        assert(text =~= seq!['-'] + body);
        assert(text[0] == '-');
        assert(text.skip(1) =~= body);
    } else {
        assert(text =~= body);
        assert(text[0] == before[0]);
    }
    assert(unsigned_part(text) == body);
    assert forall|j: int| 0 <= j < before.len() implies body[j] != '.' by {
        assert(body[j] == before[j]);
        assert(is_digit(before[j]));
    }
    assert(body[before.len() as int] == '.');
    lemma_first_index(body, '.', before.len() as int);
    assert(body.take(before.len() as int) =~= before);
    assert(body.skip(before.len() as int + 1) =~= after);
    assert(whole_part(text) == before);
    assert(fraction_part(text) == Some(after));
    assert(magnitude(text) == size);
}

} // verus!
