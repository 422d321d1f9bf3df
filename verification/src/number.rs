//! Decimal numbers in texts.
use vstd::prelude::*;

verus! {

/// An ASCII digit.
pub open spec fn is_digit(c: char) -> bool {
    '0' <= c <= '9'
}

/// Nothing but ASCII digits.
pub open spec fn all_digits(text: Seq<char>) -> bool {
    forall|i: int| 0 <= i < text.len() ==> is_digit(#[trigger] text[i])
}

/// The number that digits write.
pub open spec fn digits_value(text: Seq<char>) -> int
    decreases text.len(),
{
    if text.len() == 0 {
        0
    } else {
        digits_value(text.drop_last()) * 10 + (text.last() as int - '0' as int)
    }
}

/// A non-empty run of digits that writes a number up to `max`.
pub open spec fn number_up_to(text: Seq<char>, max: int) -> Option<int> {
    if text.len() > 0 && all_digits(text) && digits_value(text) <= max {
        Some(digits_value(text))
    } else {
        None
    }
}

/// The text without one sign of that kind at its start.
pub open spec fn without_sign(text: Seq<char>, sign: char) -> Seq<char> {
    if text.len() > 0 && text[0] == sign {
        text.skip(1)
    } else {
        text
    }
}

/// The `u32` that a text writes: digits, with or without a plus before them.
pub open spec fn u32_of(text: Seq<char>) -> Option<int> {
    number_up_to(without_sign(text, '+'), u32::MAX as int)
}

/// The `i32` that a text writes: digits, with or without a sign before them.
pub open spec fn i32_of(text: Seq<char>) -> Option<int> {
    if text.len() > 0 && text[0] == '-' {
        match number_up_to(text.skip(1), i32::MAX + 1) {
            Some(n) => Some(-n),
            None => None,
        }
    } else {
        number_up_to(without_sign(text, '+'), i32::MAX as int)
    }
}

proof fn lemma_value_grows(text: Seq<char>, n: int)
    requires
        all_digits(text),
        0 <= n <= text.len(),
    ensures
        0 <= digits_value(text.take(n)) <= digits_value(text),
    decreases text.len() - n,
{
    lemma_value_nonneg(text.take(n));
    if n < text.len() {
        lemma_value_grows(text, n + 1);
        assert(text.take(n + 1).drop_last() == text.take(n));
        assert(is_digit(text[n]));
    } else {
        assert(text.take(n) == text);
    }
}

/// Digits write no negative number.
pub proof fn lemma_value_nonneg(text: Seq<char>)
    requires
        all_digits(text),
    ensures
        0 <= digits_value(text),
    decreases text.len(),
{
    if text.len() > 0 {
        let init = text.drop_last();
        assert forall|i: int| 0 <= i < init.len() implies is_digit(#[trigger] init[i]) by {
            assert(is_digit(text[i]));
        }
        lemma_value_nonneg(init);
        assert(is_digit(text[text.len() - 1]));
    }
}

/// What a text writes as an `i32` fits one.
pub proof fn i32_fits(text: Seq<char>)
    ensures
        i32_of(text) matches Some(n) ==> i32::MIN <= n <= i32::MAX,
{
    let digits = if text.len() > 0 && text[0] == '-' {
        text.skip(1)
    } else {
        without_sign(text, '+')
    };
    if all_digits(digits) {
        lemma_value_nonneg(digits);
    }
}

/// The number that the characters from `from` on write, up to `max`.
pub fn parse_digits(text: &[char], from: usize, max: u64) -> (n: Option<u64>)
    requires
        from <= text@.len(),
        max <= 0x1_0000_0000,
    ensures
        match n {
            Some(n) => number_up_to(text@.skip(from as int), max as int) == Some(n as int),
            None => number_up_to(text@.skip(from as int), max as int) is None,
        },
{
    let ghost body = text@.skip(from as int);
    if from >= text.len() {
        return None;
    }
    let mut value: u64 = 0;
    let mut i: usize = from;
    while i < text.len()
        invariant
            from <= i <= text@.len(),
            body == text@.skip(from as int),
            max <= 0x1_0000_0000,
            0 <= value <= max,
            value == digits_value(body.take(i - from)),
            forall|k: int| 0 <= k < i - from ==> is_digit(#[trigger] body[k]),
        decreases text@.len() - i,
    {
        let c: char = text[i];
        assert(body[i - from] == c);
        if c < '0' || c > '9' {
            return None;
        }
        let d: u64 = (c as u32 - '0' as u32) as u64;
        let next: u64 = value * 10 + d;
        proof {
            assert(body.take(i - from + 1).drop_last() == body.take(i - from));
        }
        if next > max {
            proof {
                if all_digits(body) {
                    lemma_value_grows(body, i - from + 1);
                }
            }
            return None;
        }
        value = next;
        i = i + 1;
    }
    assert(body.take(i - from) == body);
    Some(value)
}

/// Reads a `u32`.
pub fn parse_u32(text: &[char]) -> (n: Option<u32>)
    ensures
        match n {
            Some(n) => u32_of(text@) == Some(n as int),
            None => u32_of(text@) is None,
        },
{
    let from: usize = if text.len() > 0 && text[0] == '+' {
        1
    } else {
        0
    };
    assert(text@.skip(from as int) == without_sign(text@, '+'));
    match parse_digits(text, from, 0xffff_ffff) {
        Some(n) => Some(n as u32),
        None => None,
    }
}

/// Reads an `i32`.
pub fn parse_i32(text: &[char]) -> (n: Option<i32>)
    ensures
        match n {
            Some(n) => i32_of(text@) == Some(n as int),
            None => i32_of(text@) is None,
        },
{
    if text.len() > 0 && text[0] == '-' {
        match parse_digits(text, 1, 0x8000_0000) {
            Some(n) => Some((-(n as i64)) as i32),
            None => None,
        }
    } else {
        let from: usize = if text.len() > 0 && text[0] == '+' {
            1
        } else {
            0
        };
        assert(text@.skip(from as int) == without_sign(text@, '+'));
        match parse_digits(text, from, 0x7fff_ffff) {
            Some(n) => Some(n as i32),
            None => None,
        }
    }
}

/// The digit of a number below ten.
pub open spec fn digit_char(d: int) -> char {
    ('0' as u32 + d) as char
}

/// A number in decimal, without leading zeros.
pub open spec fn decimal(n: nat) -> Seq<char>
    decreases n,
{
    if n < 10 {
        seq![digit_char(n as int)]
    } else {
        decimal(n / 10).push(digit_char((n % 10) as int))
    }
}

/// A number in decimal, with leading zeros up to a width.
pub open spec fn padded(n: nat, width: nat) -> Seq<char> {
    if decimal(n).len() >= width {
        decimal(n)
    } else {
        Seq::new((width - decimal(n).len()) as nat, |i: int| '0') + decimal(n)
    }
}

/// An integer in decimal.
pub open spec fn decimal_int(n: int) -> Seq<char> {
    if n < 0 {
        seq!['-'] + decimal((-n) as nat)
    } else {
        decimal(n as nat)
    }
}

/// The digit of a number below ten.
fn to_digit_char(d: u64) -> (c: char)
    requires
        d < 10,
    ensures
        c == digit_char(d as int),
{
    let code: u8 = ('0' as u32 + d as u32) as u8;
    code as char
}

/// Writes a number in decimal.
pub fn decimal_chars(n: u64) -> (out: Vec<char>)
    ensures
        out@ == decimal(n as nat),
    decreases n,
{
    if n < 10 {
        let mut out: Vec<char> = Vec::new();
        out.push(to_digit_char(n));
        assert(out@ =~= decimal(n as nat));
        out
    } else {
        let mut out = decimal_chars(n / 10);
        out.push(to_digit_char(n % 10));
        out
    }
}

/// Writes a number in decimal with leading zeros up to a width.
pub fn padded_chars(n: u64, width: usize) -> (out: Vec<char>)
    ensures
        out@ == padded(n as nat, width as nat),
{
    let digits = decimal_chars(n);
    let mut out: Vec<char> = Vec::new();
    let len: usize = digits.len();
    if len < width {
        let mut i: usize = 0;
        while i < width - len
            invariant
                len < width,
                i <= width - len,
                out@ == Seq::new(i as nat, |i: int| '0'),
            decreases width - len - i,
        {
            out.push('0');
            i = i + 1;
            assert(out@ =~= Seq::new(i as nat, |i: int| '0'));
        }
    }
    let ghost zeros = out@;
    let mut i: usize = 0;
    while i < digits.len()
        invariant
            i <= digits@.len(),
            out@ == zeros + digits@.take(i as int),
        decreases digits@.len() - i,
    {
        out.push(digits[i]);
        i = i + 1;
        assert(digits@.take(i as int) == digits@.take(i - 1).push(digits@[i - 1]));
    }
    assert(digits@.take(i as int) == digits@);
    assert(out@ =~= padded(n as nat, width as nat));
    out
}

/// Writes an integer in decimal.
pub fn decimal_int_chars(n: i64) -> (out: Vec<char>)
    ensures
        out@ == decimal_int(n as int),
{
    if n >= 0 {
        return decimal_chars(n as u64);
    }
    let digits = decimal_chars((-(n as i128)) as u64);
    let mut out: Vec<char> = Vec::new();
    out.push('-');
    let mut i: usize = 0;
    while i < digits.len()
        invariant
            i <= digits@.len(),
            out@ == seq!['-'] + digits@.take(i as int),
        decreases digits@.len() - i,
    {
        out.push(digits[i]);
        i = i + 1;
        assert(digits@.take(i as int) == digits@.take(i - 1).push(digits@[i - 1]));
    }
    assert(digits@.take(i as int) == digits@);
    out
}

proof fn lemma_decimal_digits(n: nat)
    ensures
        decimal(n).len() >= 1,
        all_digits(decimal(n)),
        digits_value(decimal(n)) == n,
    decreases n,
{
    if n < 10 {
        let s = decimal(n);
        assert(s.drop_last() =~= Seq::<char>::empty());
        assert(digits_value(s.drop_last()) == 0);
    } else {
        lemma_decimal_digits(n / 10);
        let s = decimal(n);
        assert(s.drop_last() =~= decimal(n / 10));
        assert forall|i: int| 0 <= i < s.len() implies is_digit(#[trigger] s[i]) by {
            if i < s.len() - 1 {
                assert(decimal(n / 10)[i] == s[i]);
            }
        }
    }
}

/// A number reads back as it was written.
pub proof fn decimal_reads_back(n: nat, max: int)
    requires
        n <= max,
    ensures
        number_up_to(decimal(n), max) == Some(n as int),
{
    lemma_decimal_digits(n);
}

/// The largest value, in millionths, that a decimal is read as: a million
/// millions.
pub const MAX_MILLIONTHS: i64 = 1_000_000_000_000_000_000;

/// What digits behind the point are worth, in millionths: `scale` for each unit
/// of the first digit, a tenth of it for each of the next, and nothing for
/// digits below a millionth.
pub open spec fn fraction_value(digits: Seq<char>, scale: int) -> int
    decreases digits.len(),
{
    if digits.len() == 0 {
        0
    } else {
        (digits[0] as int - '0' as int) * scale + fraction_value(digits.skip(1), scale / 10)
    }
}

/// The first point in a text, or the end of the text.
pub open spec fn point_at(text: Seq<char>) -> int
    decreases text.len(),
{
    if text.len() == 0 || text[0] == '.' {
        0
    } else {
        1 + point_at(text.skip(1))
    }
}

/// The value in millionths of a decimal such as `5.8`, `15`, `.7` or `5.`;
/// values above the largest count as the largest.
pub open spec fn decimal_value(text: Seq<char>) -> Option<int> {
    let p = point_at(text);
    let whole = text.take(p);
    let fraction = text.skip(p + 1);
    let digits = whole.len() + if p < text.len() {
        fraction.len() as int
    } else {
        0
    };
    if digits > 0 && all_digits(whole) && (p < text.len() ==> all_digits(fraction)) {
        let value = digits_value(whole) * 1_000_000 + if p < text.len() {
            fraction_value(fraction, 100_000)
        } else {
            0
        };
        Some(
            if value > MAX_MILLIONTHS {
                MAX_MILLIONTHS as int
            } else {
                value
            },
        )
    } else {
        None
    }
}

proof fn lemma_point_at(text: Seq<char>, p: int)
    requires
        0 <= p <= text.len(),
        forall|i: int| 0 <= i < p ==> #[trigger] text[i] != '.',
        p < text.len() ==> text[p] == '.',
    ensures
        point_at(text) == p,
    decreases text.len(),
{
    if p > 0 {
        let rest = text.skip(1);
        assert(text[0] != '.');
        assert forall|i: int| 0 <= i < p - 1 implies #[trigger] rest[i] != '.' by {
            assert(text[i + 1] != '.');
        }
        lemma_point_at(rest, p - 1);
    }
}

proof fn lemma_fraction_range(digits: Seq<char>, scale: int)
    requires
        all_digits(digits),
        scale >= 0,
    ensures
        0 <= fraction_value(digits, scale) <= scale * 10,
    decreases digits.len(),
{
    if digits.len() > 0 {
        let rest = digits.skip(1);
        assert forall|i: int| 0 <= i < rest.len() implies is_digit(#[trigger] rest[i]) by {
            assert(is_digit(digits[i + 1]));
        }
        lemma_fraction_range(rest, scale / 10);
        assert(is_digit(digits[0]));
        let d = digits[0] as int - '0' as int;
        assert(0 <= d * scale <= 9 * scale) by (nonlinear_arith)
            requires
                0 <= d <= 9,
                scale >= 0,
        ;
        assert(scale / 10 * 10 <= scale);
    }
}

/// Reads a decimal, in millionths.
pub fn parse_decimal(text: &[char]) -> (value: Option<i64>)
    ensures
        match value {
            Some(v) => decimal_value(text@) == Some(v as int),
            None => decimal_value(text@) is None,
        },
        value matches Some(v) ==> 0 <= v <= MAX_MILLIONTHS,
{
    let mut p: usize = 0;
    while p < text.len() && text[p] != '.'
        invariant
            p <= text@.len(),
            forall|i: int| 0 <= i < p ==> #[trigger] text@[i] != '.',
        decreases text@.len() - p,
    {
        p = p + 1;
    }
    let ghost whole = text@.take(p as int);
    let ghost fraction = text@.skip(p + 1);
    proof {
        lemma_point_at(text@, p as int);
    }
    // the whole part, held at the largest value once it is above it
    let mut units: i64 = 0;
    let mut i: usize = 0;
    while i < p
        invariant
            i <= p <= text@.len(),
            point_at(text@) == p,
            whole == text@.take(p as int),
            forall|k: int| 0 <= k < i ==> is_digit(#[trigger] whole[k]),
            0 <= units <= 1_000_000_000_000,
            units < 1_000_000_000_000 ==> units == digits_value(whole.take(i as int)),
            units == 1_000_000_000_000 ==> digits_value(whole.take(i as int)) >= 1_000_000_000_000,
        decreases p - i,
    {
        let c: char = text[i];
        assert(whole[i as int] == c);
        if c < '0' || c > '9' {
            assert(!is_digit(whole[i as int]));
            return None;
        }
        let d: i64 = (c as u32 - '0' as u32) as i64;
        proof {
            assert(whole.take(i + 1).drop_last() == whole.take(i as int));
        }
        if units < 1_000_000_000_000 {
            units = units * 10 + d;
            if units > 1_000_000_000_000 {
                units = 1_000_000_000_000;
            }
        }
        i = i + 1;
    }
    assert(whole.take(p as int) == whole);
    assert(all_digits(whole));
    if p == text.len() {
        if p == 0 {
            return None;
        }
        return Some(units * 1_000_000);
    }
    if p == 0 && text.len() == 1 {
        return None;
    }
    let mut parts: i64 = 0;
    let mut scale: i64 = 100_000;
    let mut j: usize = p + 1;
    assert(text@.skip(j as int) == fraction);
    while j < text.len()
        invariant
            p < j <= text@.len(),
            point_at(text@) == p,
            fraction == text@.skip(p + 1),
            forall|k: int| 0 <= k < j - p - 1 ==> is_digit(#[trigger] fraction[k]),
            0 <= scale <= 100_000,
            0 <= parts <= 1_000_000 - 10 * scale,
            parts + fraction_value(text@.skip(j as int), scale as int) == fraction_value(
                fraction,
                100_000,
            ),
        decreases text@.len() - j,
    {
        let c: char = text[j];
        assert(fraction[j - p - 1] == c);
        if c < '0' || c > '9' {
            assert(!is_digit(fraction[j - p - 1]));
            return None;
        }
        let d: i64 = (c as u32 - '0' as u32) as i64;
        proof {
            assert(text@.skip(j as int).skip(1) == text@.skip(j + 1));
            assert(0 <= d * scale <= 9 * scale) by (nonlinear_arith)
                requires
                    0 <= d <= 9,
                    0 <= scale <= 100_000,
            ;
            assert(scale / 10 * 10 <= scale);
        }
        parts = parts + d * scale;
        scale = scale / 10;
        j = j + 1;
    }
    assert(all_digits(fraction));
    proof {
        lemma_fraction_range(fraction, 100_000);
        assert(fraction_value(text@.skip(j as int), scale as int) == 0);
    }
    if units == 1_000_000_000_000 {
        Some(MAX_MILLIONTHS)
    } else {
        Some(units * 1_000_000 + parts)
    }
}

} // verus!
