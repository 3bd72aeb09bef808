//! Numbers on the command line and in the result line.
use vstd::prelude::*;

use crate::text::{
    all_white_space, chars_of, is_white_space, law_trimming, lemma_span, lemma_span_is,
    no_white_space, span, strip_prefix, trim, trim_end, trim_start, trimmed, white,
};

verus! {

// ---------------------------------------------------------------------------
// The model
// ---------------------------------------------------------------------------

/// Value of a hexadecimal digit of either case; 16 for any other character.
pub open spec fn digit(c: char) -> int {
    if '0' <= c <= '9' {
        c as int - '0' as int
    } else if 'a' <= c <= 'f' {
        c as int - 'a' as int + 10
    } else if 'A' <= c <= 'F' {
        c as int - 'A' as int + 10
    } else {
        16
    }
}

/// Every character of `s` is a digit in the given radix.
pub open spec fn all_digits(s: Seq<char>, radix: int) -> bool {
    forall|i: int| 0 <= i < s.len() ==> digit(#[trigger] s[i]) < radix
}

/// The number that the digits `s` denote, most significant first.
pub open spec fn value(s: Seq<char>, radix: int) -> int
    decreases s.len(),
{
    if s.len() == 0 {
        0
    } else {
        value(s.drop_last(), radix) * radix + digit(s.last())
    }
}

/// The digit that stands for `d`, in lower case.
pub open spec fn digit_char(d: int) -> char {
    if d < 10 {
        ('0' as int + d) as char
    } else {
        ('a' as int + (d - 10)) as char
    }
}

/// The digits of `n`, most significant first, without leading zeros.
pub open spec fn digits(n: int, radix: int) -> Seq<char>
    decreases n,
{
    if radix < 2 || n < radix {
        seq![digit_char(n)]
    } else {
        proof {
            lemma_quotient(n, radix);
        }
        digits(n / radix, radix).push(digit_char(n % radix))
    }
}

/// `s`, with zeros in front up to `width` characters.
pub open spec fn zero_padded(s: Seq<char>, width: int) -> Seq<char> {
    if s.len() < width {
        Seq::new((width - s.len()) as nat, |i: int| '0') + s
    } else {
        s
    }
}

/// Why a text is not a number.
#[derive(Clone, Copy, Debug, PartialEq, Eq, Structural)]
pub enum DigitError {
    /// There is no text.
    Empty,
    /// A character is no digit.
    InvalidDigit,
    /// The number does not fit in 64 bits.
    PosOverflow,
}

/// Character `k` is the first that is no digit, and the number before it fits.
pub open spec fn stops_at(s: Seq<char>, radix: int, k: int) -> bool {
    &&& 0 <= k < s.len()
    &&& digit(s[k]) >= radix
    &&& all_digits(s.take(k), radix)
    &&& value(s.take(k), radix) <= u64::MAX
}

/// What follows the sign, if there is one.
pub open spec fn unsigned(s: Seq<char>) -> Seq<char> {
    if s.len() > 0 && s[0] == '+' {
        s.skip(1)
    } else {
        s
    }
}

/// Reading an unsigned 64-bit number in the given radix. A `+` in front is
/// allowed. Of a bad digit and an overflow the one met first, from the left,
/// is the error.
pub open spec fn read(s: Seq<char>, radix: int) -> Result<u64, DigitError> {
    let body = unsigned(s);
    if s.len() == 0 {
        Err(DigitError::Empty)
    } else if body.len() == 0 {
        Err(DigitError::InvalidDigit)
    } else if all_digits(body, radix) && value(body, radix) <= u64::MAX {
        Ok(value(body, radix) as u64)
    } else if exists|k: int| stops_at(body, radix, k) {
        Err(DigitError::InvalidDigit)
    } else {
        Err(DigitError::PosOverflow)
    }
}

/// What kind of number was wanted.
#[derive(Clone, Copy, Debug, PartialEq, Eq, Structural)]
pub enum NumberForm {
    /// Hexadecimal, behind a `0x`.
    Hex,
    /// Decimal or else hexadecimal.
    Any,
}

/// A text that is no number.
#[derive(Debug)]
pub struct NumberError {
    pub form: NumberForm,
    /// The text, without the white space around it.
    pub text: String,
    pub cause: DigitError,
}

/// The model of a `NumberError`.
pub struct NumberErrorView {
    pub form: NumberForm,
    pub text: Seq<char>,
    pub cause: DigitError,
}

impl View for NumberError {
    type V = NumberErrorView;

    open spec fn view(&self) -> NumberErrorView {
        NumberErrorView { form: self.form, text: self.text@, cause: self.cause }
    }
}

/// What follows `0x` or `0X` in `s`.
pub open spec fn hex_body(s: Seq<char>) -> Option<Seq<char>> {
    if seq!['0', 'x'].is_prefix_of(s) || seq!['0', 'X'].is_prefix_of(s) {
        Some(s.skip(2))
    } else {
        None
    }
}

/// Reading a number: white space around it is ignored, `0x` in front makes it
/// hexadecimal, and without that it is decimal if it can be and else
/// hexadecimal.
pub open spec fn number(s: Seq<char>) -> Result<u64, NumberErrorView> {
    let text = trimmed(s);
    match hex_body(text) {
        Some(h) => match read(h, 16) {
            Ok(v) => Ok(v),
            Err(cause) => Err(NumberErrorView { form: NumberForm::Hex, text, cause }),
        },
        None => match (read(text, 10), read(text, 16)) {
            (Ok(v), _) => Ok(v),
            (_, Ok(v)) => Ok(v),
            (_, Err(cause)) => Err(NumberErrorView { form: NumberForm::Any, text, cause }),
        },
    }
}

/// Reading a number that is meant to be hexadecimal, with or without `0x` in
/// front. White space around it is ignored.
pub open spec fn hex_number(s: Seq<char>) -> Result<u64, NumberErrorView> {
    let text = trimmed(s);
    match hex_body(text) {
        Some(h) => match read(h, 16) {
            Ok(v) => Ok(v),
            Err(cause) => Err(NumberErrorView { form: NumberForm::Hex, text, cause }),
        },
        None => match read(text, 16) {
            Ok(v) => Ok(v),
            Err(cause) => Err(NumberErrorView { form: NumberForm::Any, text, cause }),
        },
    }
}

/// The result of `parse_num` or `parse_hex`, with the error by its model.
pub open spec fn number_result(r: Result<u64, NumberError>) -> Result<u64, NumberErrorView> {
    match r {
        Ok(v) => Ok(v),
        Err(e) => Err(e@),
    }
}

// ---------------------------------------------------------------------------
// The code
// ---------------------------------------------------------------------------

/// Value of a hexadecimal digit; 16 for any other character.
fn digit_value(c: char) -> (d: u64)
    ensures
        d == digit(c),
{
    if '0' <= c && c <= '9' {
        (c as u32 - '0' as u32) as u64
    } else if 'a' <= c && c <= 'f' {
        (c as u32 - 'a' as u32 + 10) as u64
    } else if 'A' <= c && c <= 'F' {
        (c as u32 - 'A' as u32 + 10) as u64
    } else {
        16
    }
}

/// A longer text denotes no smaller number.
proof fn lemma_value_grows(s: Seq<char>, radix: int, j: int, k: int)
    requires
        0 <= j <= k <= s.len(),
        radix >= 1,
    ensures
        0 <= value(s.take(j), radix) <= value(s.take(k), radix),
    decreases k,
{
    if k > 0 {
        assert(s.take(k).drop_last() == s.take(k - 1));
        let v = value(s.take(k - 1), radix);
        lemma_value_grows(s, radix, if j < k { j } else { k - 1 }, k - 1);
        assert(v * radix >= v) by (nonlinear_arith)
            requires
                v >= 0,
                radix >= 1,
        ;
    }
}

/// Reads an unsigned 64-bit number in radix 10 or 16.
fn read_number(s: &str, radix: u64) -> (r: Result<u64, DigitError>)
    requires
        radix == 10 || radix == 16,
    ensures
        r == read(s@, radix as int),
{
    let v = chars_of(s);
    if v.len() == 0 {
        return Err(DigitError::Empty);
    }
    let start: usize = if v[0] == '+' { 1 } else { 0 };
    if start == v.len() {
        return Err(DigitError::InvalidDigit);
    }
    let ghost body = unsigned(s@);
    let mut n: u64 = 0;
    let mut i: usize = start;
    while i < v.len()
        invariant
            radix == 10 || radix == 16,
            v@ == s@,
            start == if v@[0] == '+' { 1int } else { 0 },
            body == unsigned(s@),
            start < v.len(),
            start <= i <= v.len(),
            all_digits(body.take(i - start), radix as int),
            n == value(body.take(i - start), radix as int),
        decreases v.len() - i,
    {
        let ghost k = i - start;
        let d = digit_value(v[i]);
        assert(v@[i as int] == body[k]);
        if d >= radix {
            assert(stops_at(body, radix as int, k));
            assert(!all_digits(body, radix as int));
            return Err(DigitError::InvalidDigit);
        }
        proof {
            assert(body.take(k + 1).drop_last() == body.take(k));
            assert forall|j: int| 0 <= j < k + 1 implies digit(#[trigger] body.take(k + 1)[j])
                < radix by {
                if j < k {
                    assert(body.take(k + 1)[j] == body.take(k)[j]);
                }
            }
        }
        assert(n as u128 * radix as u128 <= u64::MAX * 16) by (nonlinear_arith)
            requires
                n <= u64::MAX,
                radix <= 16,
        ;
        let wide: u128 = n as u128 * radix as u128 + d as u128;
        if wide > u64::MAX as u128 {
            proof {
                lemma_value_grows(body, radix as int, k + 1, body.len() as int);
                assert(body.take(body.len() as int) == body);
                assert forall|j: int| !stops_at(body, radix as int, j) by {
                    if stops_at(body, radix as int, j) {
                        if j <= k {
                            assert(body.take(k + 1)[j] == body[j]);
                        } else {
                            lemma_value_grows(body, radix as int, k + 1, j);
                        }
                    }
                }
            }
            return Err(DigitError::PosOverflow);
        }
        n = wide as u64;
        i = i + 1;
    }
    assert(body.take(body.len() as int) == body);
    Ok(n)
}

/// The error of a text that is no number.
fn no_number(form: NumberForm, text: &str, cause: DigitError) -> (e: NumberError)
    ensures
        e@ == (NumberErrorView { form, text: text@, cause }),
{
    NumberError { form, text: text.to_owned(), cause }
}

/// What follows `0x` or `0X`.
fn strip_hex_mark(text: &str) -> (r: Option<&str>)
    ensures
        match r {
            Some(h) => hex_body(text@) == Some(h@),
            None => hex_body(text@) is None,
        },
{
    proof {
        reveal_strlit("0x");
        reveal_strlit("0X");
        assert("0x"@ == seq!['0', 'x']);
        assert("0X"@ == seq!['0', 'X']);
    }
    match strip_prefix(text, "0x") {
        Some(h) => Some(h),
        None => strip_prefix(text, "0X"),
    }
}

/// Reads a number as the command line writes it: `0x1F`, `31`, or `1F`.
pub fn parse_num(s: &str) -> (r: Result<u64, NumberError>)
    ensures
        number_result(r) == number(s@),
{
    let text = trim(s);
    match strip_hex_mark(text) {
        Some(h) => match read_number(h, 16) {
            Ok(v) => Ok(v),
            Err(cause) => Err(no_number(NumberForm::Hex, text, cause)),
        },
        None => match read_number(text, 10) {
            Ok(v) => Ok(v),
            Err(_) => match read_number(text, 16) {
                Ok(v) => Ok(v),
                Err(cause) => Err(no_number(NumberForm::Any, text, cause)),
            },
        },
    }
}

/// Reads a hexadecimal number: `0x1F`, or `1F`.
pub fn parse_hex(s: &str) -> (r: Result<u64, NumberError>)
    ensures
        number_result(r) == hex_number(s@),
{
    let text = trim(s);
    match strip_hex_mark(text) {
        Some(h) => match read_number(h, 16) {
            Ok(v) => Ok(v),
            Err(cause) => Err(no_number(NumberForm::Hex, text, cause)),
        },
        None => match read_number(text, 16) {
            Ok(v) => Ok(v),
            Err(cause) => Err(no_number(NumberForm::Any, text, cause)),
        },
    }
}

impl NumberError {
    /// The message that names the text.
    pub open spec fn message_text(e: NumberErrorView) -> Seq<char> {
        match e.form {
            NumberForm::Hex => "bad hex: "@ + e.text,
            NumberForm::Any => "bad number: "@ + e.text,
        }
    }

    /// The message that names the cause.
    pub open spec fn cause_text(e: NumberErrorView) -> Seq<char> {
        match e.cause {
            DigitError::Empty => "cannot parse integer from empty string"@,
            DigitError::InvalidDigit => "invalid digit found in string"@,
            DigitError::PosOverflow => "number too large to fit in target type"@,
        }
    }

    /// The message that names the text.
    pub fn message(&self) -> (m: String)
        ensures
            m@ == Self::message_text(self@),
    {
        let mut m = match self.form {
            NumberForm::Hex => "bad hex: ".to_owned(),
            NumberForm::Any => "bad number: ".to_owned(),
        };
        m.append(self.text.as_str());
        m
    }

    /// The message that names the cause.
    pub fn cause_message(&self) -> (m: String)
        ensures
            m@ == Self::cause_text(self@),
    {
        match self.cause {
            DigitError::Empty => "cannot parse integer from empty string".to_owned(),
            DigitError::InvalidDigit => "invalid digit found in string".to_owned(),
            DigitError::PosOverflow => "number too large to fit in target type".to_owned(),
        }
    }
}

/// The quotient of a number is smaller than the number.
pub proof fn lemma_quotient(n: int, radix: int)
    requires
        radix >= 2,
        n >= radix,
    ensures
        0 < n / radix < n,
        n == (n / radix) * radix + n % radix,
        0 <= n % radix < radix,
{
    assert(0 < n / radix < n && n == (n / radix) * radix + n % radix && 0 <= n % radix < radix)
        by (nonlinear_arith)
        requires
            radix >= 2,
            n >= radix,
    ;
}

/// The digit that stands for `d`.
fn digit_text(d: u64) -> (c: char)
    requires
        d < 16,
    ensures
        c == digit_char(d as int),
{
    match d {
        0 => '0',
        1 => '1',
        2 => '2',
        3 => '3',
        4 => '4',
        5 => '5',
        6 => '6',
        7 => '7',
        8 => '8',
        9 => '9',
        10 => 'a',
        11 => 'b',
        12 => 'c',
        13 => 'd',
        14 => 'e',
        _ => 'f',
    }
}

/// Appends the digits of `n` in radix 10 or 16.
fn push_digits(out: &mut String, n: u64, radix: u64)
    requires
        radix == 10 || radix == 16,
    ensures
        final(out)@ == old(out)@ + digits(n as int, radix as int),
    decreases n,
{
    if n >= radix {
        proof {
            lemma_quotient(n as int, radix as int);
        }
        push_digits(out, n / radix, radix);
    }
    out.push(digit_text(n % radix));
    assert(out@ == old(out)@ + digits(n as int, radix as int));
}

/// Appends `n` in decimal.
pub(crate) fn push_decimal(out: &mut String, n: u64)
    ensures
        final(out)@ == old(out)@ + digits(n as int, 10),
{
    push_digits(out, n, 10);
}

/// Appends `n` in hexadecimal.
pub(crate) fn push_plain_hex(out: &mut String, n: u64)
    ensures
        final(out)@ == old(out)@ + digits(n as int, 16),
{
    push_digits(out, n, 16);
}

/// Appends `n` in hexadecimal, with zeros in front up to `width` digits.
pub(crate) fn push_hex(out: &mut String, n: u64, width: usize)
    ensures
        final(out)@ == old(out)@ + zero_padded(digits(n as int, 16), width as int),
{
    let mut text = String::new();
    push_digits(&mut text, n, 16);
    let ghost start = out@;
    let len = text.as_str().unicode_len();
    let mut i: usize = len;
    while i < width
        invariant
            len == text@.len(),
            len <= i,
            i <= width || i == len,
            out@ == start + Seq::new((i - len) as nat, |k: int| '0'),
        decreases width - i,
    {
        out.push('0');
        i = i + 1;
        assert(out@ == start + Seq::new((i - len) as nat, |k: int| '0'));
    }
    out.append(text.as_str());
    assert(out@ == start + zero_padded(digits(n as int, 16), width as int));
}

// ---------------------------------------------------------------------------
// Laws
// ---------------------------------------------------------------------------

/// White space in front of `s` does not change what `trim_start` leaves.
proof fn lemma_trim_start_skips(left: Seq<char>, s: Seq<char>)
    requires
        all_white_space(left),
    ensures
        trim_start(left + s) == trim_start(s),
{
    lemma_span(s, white());
    let n = span(s, white());
    assert forall|i: int| 0 <= i < left.len() + n implies white()(#[trigger] (left + s)[i]) by {
        if i >= left.len() {
            assert((left + s)[i] == s[i - left.len()]);
        }
    }
    if n < s.len() {
        assert((left + s)[left.len() + n] == s[n]);
    }
    lemma_span_is(left + s, white(), left.len() + n);
    assert((left + s).skip(left.len() + n) == s.skip(n));
}

/// White space behind `s` does not change what `trim_end` leaves.
proof fn lemma_trim_end_skips(s: Seq<char>, right: Seq<char>)
    requires
        all_white_space(right),
    ensures
        trim_end(s + right) == trim_end(s),
    decreases right.len(),
{
    if right.len() > 0 {
        assert((s + right).drop_last() == s + right.drop_last());
        assert((s + right).last() == right[right.len() - 1]);
        lemma_trim_end_skips(s, right.drop_last());
    } else {
        assert(s + right == s);
    }
}

/// White space around `s` does not change what trimming leaves.
pub proof fn lemma_trimmed_skips(left: Seq<char>, s: Seq<char>, right: Seq<char>)
    requires
        all_white_space(left),
        all_white_space(right),
    ensures
        trimmed(left + s + right) == trimmed(s),
{
    assert(left + s + right == left + (s + right));
    lemma_trim_start_skips(left, s + right);
    lemma_span(s, white());
    let n = span(s, white());
    if n == s.len() {
        assert(all_white_space(s));
        lemma_trim_start_skips(s, right);
        lemma_span_is(right, white(), right.len() as int);
        assert(trim_start(right) =~= Seq::empty());
        assert(trim_start(s) =~= Seq::empty());
    } else {
        assert forall|i: int| 0 <= i < n implies white()(#[trigger] (s + right)[i]) by {
            assert((s + right)[i] == s[i]);
        }
        lemma_span_is(s + right, white(), n);
        assert((s + right).skip(n) == s.skip(n) + right);
        lemma_trim_end_skips(s.skip(n), right);
    }
}

/// A text without white space is left as it is.
pub proof fn lemma_trimmed_same(s: Seq<char>)
    requires
        no_white_space(s),
    ensures
        trimmed(s) == s,
{
    lemma_span_is(s, white(), 0);
    assert(s.skip(0) == s);
}

/// White space around a number does not matter.
pub proof fn law_white_space_around_is_ignored(left: Seq<char>, s: Seq<char>, right: Seq<char>)
    requires
        all_white_space(left),
        all_white_space(right),
    ensures
        number(left + s + right) == number(s),
        hex_number(left + s + right) == hex_number(s),
{
    lemma_trimmed_skips(left, s, right);
}

/// Digits read in a larger radix denote no smaller number.
proof fn lemma_hex_not_below_decimal(s: Seq<char>)
    ensures
        0 <= value(s, 10) <= value(s, 16),
    decreases s.len(),
{
    if s.len() > 0 {
        lemma_hex_not_below_decimal(s.drop_last());
    }
}

/// A text of decimal digits is read in decimal or not at all: it never falls
/// back to hexadecimal.
pub proof fn law_decimal_digits_are_decimal(s: Seq<char>)
    requires
        s.len() > 0,
        all_digits(s, 10),
    ensures
        number(s) == if value(s, 10) <= u64::MAX {
            Ok(value(s, 10) as u64)
        } else {
            Err(
                (NumberErrorView {
                    form: NumberForm::Any,
                    text: s,
                    cause: DigitError::PosOverflow,
                }),
            )
        },
{
    assert forall|i: int| 0 <= i < s.len() implies !is_white_space(#[trigger] s[i]) by {
        assert(digit(s[i]) < 10);
    }
    lemma_trimmed_same(s);
    assert(digit(s[0]) < 10);
    lemma_no_hex_prefix(s);
    lemma_hex_not_below_decimal(s);
    assert forall|k: int| !stops_at(s, 16, k) by {
        if stops_at(s, 16, k) {
            assert(digit(s[k]) < 10);
        }
    }
}

/// Decimal digits do not start with `0x`.
proof fn lemma_no_hex_prefix(s: Seq<char>)
    requires
        all_digits(s, 10),
    ensures
        hex_body(s) is None,
{
    if seq!['0', 'x'].is_prefix_of(s) {
        assert(s[1] == seq!['0', 'x'][1]);
        assert(digit(s[1]) < 10);
    }
    if seq!['0', 'X'].is_prefix_of(s) {
        assert(s[1] == seq!['0', 'X'][1]);
        assert(digit(s[1]) < 10);
    }
}

/// Reading digits back gives the number that they were written for.
pub proof fn lemma_digits_read_back(n: int, radix: int)
    requires
        radix == 10 || radix == 16,
        n >= 0,
    ensures
        digits(n, radix).len() > 0,
        all_digits(digits(n, radix), radix),
        value(digits(n, radix), radix) == n,
    decreases n,
{
    reveal_with_fuel(value, 2);
    let d = digits(n, radix);
    if n < radix {
        assert(d.drop_last() =~= Seq::empty());
        assert(digit(digit_char(n)) == n);
    } else {
        lemma_quotient(n, radix);
        lemma_digits_read_back(n / radix, radix);
        let head = digits(n / radix, radix);
        assert(d.drop_last() =~= head);
        assert(digit(digit_char(n % radix)) == n % radix);
        assert forall|i: int| 0 <= i < d.len() implies digit(#[trigger] d[i]) < radix by {
            if i < head.len() {
                assert(d[i] == head[i]);
            }
        }
    }
}

/// A number written in decimal is read back.
pub proof fn law_decimal_reads_back(n: u64)
    ensures
        number(digits(n as int, 10)) == Ok::<u64, NumberErrorView>(n),
{
    lemma_digits_read_back(n as int, 10);
    law_decimal_digits_are_decimal(digits(n as int, 10));
}

/// Zeros in front do not change the number, nor that all are digits.
proof fn lemma_zero_padded_value(s: Seq<char>, width: int)
    requires
        all_digits(s, 16),
    ensures
        all_digits(zero_padded(s, width), 16),
        value(zero_padded(s, width), 16) == value(s, 16),
{
    let z = Seq::new((width - s.len()) as nat, |i: int| '0');
    if s.len() < width {
        lemma_leading_zeros(z, s);
    }
}

/// Zeros in front do not change the number.
proof fn lemma_leading_zeros(z: Seq<char>, s: Seq<char>)
    requires
        forall|i: int| 0 <= i < z.len() ==> #[trigger] z[i] == '0',
    ensures
        value(z + s, 16) == value(s, 16),
    decreases z.len() + s.len(),
{
    if s.len() > 0 {
        assert((z + s).drop_last() == z + s.drop_last());
        lemma_leading_zeros(z, s.drop_last());
    } else if z.len() > 0 {
        assert((z + s).drop_last() == z.drop_last() + s);
        assert((z + s).last() == z[z.len() - 1]);
        lemma_leading_zeros(z.drop_last(), s);
    } else {
        assert(z + s == s);
    }
}

/// A number written in hexadecimal behind `0x`, with any zeros in front, is
/// read back, and where only a hexadecimal number is meant also without `0x`.
pub proof fn law_hex_reads_back(n: u64, width: int)
    ensures
        number("0x"@ + zero_padded(digits(n as int, 16), width)) == Ok::<u64, NumberErrorView>(n),
        hex_number("0x"@ + zero_padded(digits(n as int, 16), width)) == Ok::<u64, NumberErrorView>(
            n,
        ),
        hex_number(zero_padded(digits(n as int, 16), width)) == Ok::<u64, NumberErrorView>(n),
{
    reveal_strlit("0x");
    let d = zero_padded(digits(n as int, 16), width);
    lemma_digits_read_back(n as int, 16);
    lemma_zero_padded_value(digits(n as int, 16), width);
    lemma_hex_digits_are_plain(d);
    assert("0x"@ =~= seq!['0', 'x']);
    law_reading_digits(d, 16);
    law_marked_numbers(d, false);
    law_bare_numbers(d);
}

/// Hexadecimal digits hold no white space and do not start with `0x`.
proof fn lemma_hex_digits_are_plain(d: Seq<char>)
    requires
        all_digits(d, 16),
        d.len() > 0,
    ensures
        no_white_space(d),
        !seq!['0', 'x'].is_prefix_of(d),
        !seq!['0', 'X'].is_prefix_of(d),
{
    assert forall|i: int| 0 <= i < d.len() implies !is_white_space(#[trigger] d[i]) by {
        assert(digit(d[i]) < 16);
    }
    if seq!['0', 'x'].is_prefix_of(d) {
        assert(d[1] == seq!['0', 'x'][1]);
        assert(digit(d[1]) < 16);
    }
    if seq!['0', 'X'].is_prefix_of(d) {
        assert(d[1] == seq!['0', 'X'][1]);
        assert(digit(d[1]) < 16);
    }
}

/// Behind `0x` there is only one way to read a number.
pub proof fn law_marked_hex_is_hex(s: Seq<char>)
    requires
        hex_body(trimmed(s)) is Some,
    ensures
        number(s) == hex_number(s),
{
}

/// The digits and their values: `0` to `9`, then `a` to `f` in either case. No
/// other character is a digit in any radix.
pub proof fn law_digit_values(c: char)
    ensures
        0x30 <= c as int <= 0x39 ==> digit(c) == c as int - 0x30,
        0x41 <= c as int <= 0x46 ==> digit(c) == c as int - 0x41 + 10,
        0x61 <= c as int <= 0x66 ==> digit(c) == c as int - 0x61 + 10,
        !(0x30 <= c as int <= 0x39) && !(0x41 <= c as int <= 0x46) && !(0x61 <= c as int <= 0x66)
            ==> digit(c) >= 16,
{
}

/// Digits count by their place: one more digit makes what stands before it
/// count `radix` times, and adds its own value.
pub proof fn law_digits_count_by_place(s: Seq<char>, c: char, radix: int)
    ensures
        value(Seq::empty(), radix) == 0,
        value(s.push(c), radix) == value(s, radix) * radix + digit(c),
{
    assert(s.push(c).drop_last() =~= s);
}

/// Numbers are written with the digits of their radix, in lower case, without
/// zeros in front, so that they denote the number; zero is one digit.
pub proof fn law_how_numbers_are_written(n: int, radix: int)
    requires
        radix == 10 || radix == 16,
        n >= 0,
    ensures
        value(digits(n, radix), radix) == n,
        digits(0, radix) == seq!['0'],
        digits(n, radix).len() > 0,
        n > 0 ==> digits(n, radix)[0] != '0',
        forall|i: int|
            0 <= i < digits(n, radix).len() ==> {
                let c = (#[trigger] digits(n, radix)[i]) as int;
                0x30 <= c <= 0x39 || (radix == 16 && 0x61 <= c <= 0x66)
            },
    decreases n,
{
    lemma_digits_read_back(n, radix);
    let d = digits(n, radix);
    if n >= radix {
        lemma_quotient(n, radix);
        law_how_numbers_are_written(n / radix, radix);
        let head = digits(n / radix, radix);
        assert forall|i: int| 0 <= i < d.len() implies ({
            let c = (#[trigger] d[i]) as int;
            0x30 <= c <= 0x39 || (radix == 16 && 0x61 <= c <= 0x66)
        }) by {
            if i < head.len() {
                assert(d[i] == head[i]);
            }
        }
        assert(d[0] == head[0]);
    }
}

/// Padding puts zeros in front up to the width and leaves the rest as it is.
pub proof fn law_zero_padding(s: Seq<char>, width: int)
    ensures
        s.len() >= width ==> zero_padded(s, width) == s,
        s.len() < width ==> {
            let p = zero_padded(s, width);
            &&& p.len() == width
            &&& p.skip(width - s.len()) == s
            &&& forall|i: int| 0 <= i < width - s.len() ==> #[trigger] p[i] == '0'
        },
{
    if s.len() < width {
        assert(zero_padded(s, width).skip(width - s.len()) =~= s);
    }
}

/// A number of at most `width` digits is padded to exactly `width`.
pub proof fn lemma_padded_length(n: int, width: int)
    requires
        0 <= n,
        (width == 2 && n < 0x100) || (width == 4 && n < 0x1_0000),
    ensures
        zero_padded(digits(n, 16), width).len() == width,
{
    reveal_with_fuel(digits, 5);
}

/// Reading: digits that fit in 64 bits give their value, with or without a `+`
/// in front; more of them are too many; nothing, and a `+` alone, is no number.
pub proof fn law_reading_digits(s: Seq<char>, radix: int)
    requires
        s.len() > 0,
        radix == 10 || radix == 16,
        forall|i: int| 0 <= i < s.len() ==> digit(#[trigger] s[i]) < radix,
    ensures
        value(s, radix) <= u64::MAX ==> read(s, radix) == Ok::<u64, DigitError>(
            value(s, radix) as u64,
        ),
        value(s, radix) > u64::MAX ==> read(s, radix) == Err::<u64, DigitError>(
            DigitError::PosOverflow,
        ),
        read(seq!['+'] + s, radix) == read(s, radix),
        read(Seq::empty(), radix) == Err::<u64, DigitError>(DigitError::Empty),
        read(seq!['+'], radix) == Err::<u64, DigitError>(DigitError::InvalidDigit),
{
    let t = seq!['+'] + s;
    assert(t.skip(1) =~= s);
    assert(digit(s[0]) < radix);
    assert(digit('+') == 16);
    assert forall|k: int| !stops_at(s, radix, k) by {
        if stops_at(s, radix, k) {
            assert(digit(s[k]) < radix);
        }
    }
    let v = value(s, radix);
    assert(s.take(s.len() as int) =~= s);
    lemma_value_grows(s, radix, 0, s.len() as int);
    assert(seq!['+'].skip(1) =~= Seq::empty());
}

/// Reading: a character that is no digit is the error, unless what stands
/// before it is already too large.
pub proof fn law_reading_other_characters(s: Seq<char>, c: char, rest: Seq<char>, radix: int)
    requires
        radix == 10 || radix == 16,
        forall|i: int| 0 <= i < s.len() ==> digit(#[trigger] s[i]) < radix,
        digit(c) >= radix,
        s.len() > 0 || c != '+',
    ensures
        value(s, radix) <= u64::MAX ==> read(s + seq![c] + rest, radix) == Err::<u64, DigitError>(
            DigitError::InvalidDigit,
        ),
        value(s, radix) > u64::MAX ==> read(s + seq![c] + rest, radix) == Err::<u64, DigitError>(
            DigitError::PosOverflow,
        ),
{
    let t = s + seq![c] + rest;
    let k = s.len() as int;
    assert(t[k] == c);
    assert(t.take(k) =~= s);
    assert(digit('+') == 16);
    if s.len() > 0 {
        assert(t[0] == s[0]);
        assert(digit(s[0]) < radix);
    }
    assert(unsigned(t) == t);
    assert(!all_digits(t, radix));
    if value(s, radix) <= u64::MAX {
        assert(stops_at(t, radix, k));
    } else {
        assert forall|j: int| !stops_at(t, radix, j) by {
            if stops_at(t, radix, j) {
                if j < k {
                    assert(t[j] == s[j]);
                    assert(digit(s[j]) < radix);
                } else if j > k {
                    assert(t.take(j)[k] == c);
                    assert(digit(t.take(j)[k]) < radix);
                }
            }
        }
    }
}

/// A number behind `0x` or `0X` is hexadecimal, and nothing else is tried. The
/// error shows the text.
pub proof fn law_marked_numbers(h: Seq<char>, capital: bool)
    requires
        h.len() == 0 || !is_white_space(h.last()),
    ensures
        ({
            let mark = if capital { seq!['0', 'X'] } else { seq!['0', 'x'] };
            &&& number(mark + h) == match read(h, 16) {
                Ok(v) => Ok::<u64, NumberErrorView>(v),
                Err(cause) => Err(
                    NumberErrorView { form: NumberForm::Hex, text: mark + h, cause },
                ),
            }
            &&& hex_number(mark + h) == number(mark + h)
        }),
{
    let mark = if capital { seq!['0', 'X'] } else { seq!['0', 'x'] };
    let s = mark + h;
    let none: Seq<char> = Seq::empty();
    law_trimming(none, s, none);
    assert(none + s + none =~= s);
    assert(s.take(2) =~= mark);
    assert(s.skip(2) =~= h);
}

/// A number without a mark is decimal where that gives a number, and otherwise
/// hexadecimal; where an address is meant it is hexadecimal at once. The error
/// shows the text and what is wrong with it as a hexadecimal number.
pub proof fn law_bare_numbers(s: Seq<char>)
    requires
        s.len() > 0,
        !is_white_space(s[0]),
        !is_white_space(s.last()),
        !seq!['0', 'x'].is_prefix_of(s),
        !seq!['0', 'X'].is_prefix_of(s),
    ensures
        ({
            let as_hex = match read(s, 16) {
                Ok(v) => Ok::<u64, NumberErrorView>(v),
                Err(cause) => Err(NumberErrorView { form: NumberForm::Any, text: s, cause }),
            };
            &&& hex_number(s) == as_hex
            &&& number(s) == match read(s, 10) {
                Ok(v) => Ok(v),
                Err(_) => as_hex,
            }
        }),
{
    let none: Seq<char> = Seq::empty();
    law_trimming(none, s, none);
    assert(none + s + none =~= s);
}

/// The messages of an error name its form and show its text, and say what is
/// wrong.
pub proof fn law_number_errors_are_shown(text: Seq<char>, cause: DigitError, form: NumberForm)
    ensures
        NumberError::message_text((NumberErrorView { form: NumberForm::Hex, text, cause }))
            == "bad hex: "@ + text,
        NumberError::message_text((NumberErrorView { form: NumberForm::Any, text, cause }))
            == "bad number: "@ + text,
        ({
            let shown = NumberError::cause_text((NumberErrorView { form, text, cause }));
            &&& cause is Empty ==> shown == "cannot parse integer from empty string"@
            &&& cause is InvalidDigit ==> shown == "invalid digit found in string"@
            &&& cause is PosOverflow ==> shown == "number too large to fit in target type"@
        }),
{
}

/// The model of a result and of an error shows it as it is.
pub proof fn law_model_shows_the_number(v: u64, e: NumberError)
    ensures
        number_result(Ok(v)) == Ok::<u64, NumberErrorView>(v),
        number_result(Err(e)) == Err::<u64, NumberErrorView>(e@),
        e@.form == e.form,
        e@.text == e.text@,
        e@.cause == e.cause,
{
}

} // verus!
