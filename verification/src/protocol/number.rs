//! Decimal numbers as they appear in a command's value.
//!
//! A step count is a signed decimal integer that fits in 32 bits. A speed or
//! an angle is a decimal literal with an optional fraction and exponent; the
//! library checks its shape and keeps its text, and the caller turns the text
//! into the machine's number.

use vstd::prelude::*;
use vstd::string::*;
use crate::protocol::text::chars_of;

verus! {

/// An ASCII decimal digit.
pub open spec fn is_digit(c: char) -> bool {
    '0' <= c <= '9'
}

/// A leading `+` or `-`.
pub open spec fn is_sign(c: char) -> bool {
    c == '+' || c == '-'
}

/// Every character of `s` is a decimal digit.
pub open spec fn all_digits(s: Seq<char>) -> bool {
    forall|i: int| 0 <= i < s.len() ==> is_digit(#[trigger] s[i])
}

/// `s` without its sign, if it starts with one.
pub open spec fn unsigned_part(s: Seq<char>) -> Seq<char> {
    if s.len() > 0 && is_sign(s[0]) {
        s.skip(1)
    } else {
        s
    }
}

/// The number that a string of digits denotes in base ten.
pub open spec fn decimal_value(digits: Seq<char>) -> int
    decreases digits.len(),
{
    if digits.len() == 0 {
        0
    } else {
        10 * decimal_value(digits.drop_last()) + (digits.last() as int - '0' as int)
    }
}

/// The integer that `s` denotes: an optional sign, then one or more digits.
/// Anything else denotes no integer.
pub open spec fn integer_value(s: Seq<char>) -> Option<int> {
    let digits = unsigned_part(s);
    if digits.len() > 0 && all_digits(digits) {
        if s[0] == '-' {
            Some(-decimal_value(digits))
        } else {
            Some(decimal_value(digits))
        }
    } else {
        None
    }
}

/// The 32-bit signed integer that `s` denotes, if it denotes an integer in range.
pub open spec fn i32_value(s: Seq<char>) -> Option<i32> {
    match integer_value(s) {
        Some(v) => if i32::MIN <= v <= i32::MAX {
            Some(v as i32)
        } else {
            None
        },
        None => None,
    }
}

/// Appending a digit multiplies by ten and adds it, so values never shrink.
pub proof fn lemma_decimal_value_push(digits: Seq<char>, c: char)
    requires
        all_digits(digits),
        is_digit(c),
    ensures
        decimal_value(digits.push(c)) == 10 * decimal_value(digits) + (c as int - '0' as int),
        decimal_value(digits) >= 0,
        decimal_value(digits.push(c)) >= decimal_value(digits),
    decreases digits.len(),
{
    assert(digits.push(c).drop_last() =~= digits);
    assert(digits.push(c).last() == c);
    if digits.len() > 0 {
        let init = digits.drop_last();
        assert(all_digits(init)) by {
            assert forall|i: int| 0 <= i < init.len() implies is_digit(#[trigger] init[i]) by {
                assert(init[i] == digits[i]);
            }
        }
        assert(is_digit(digits.last()));
        lemma_decimal_value_push(init, digits.last());
        assert(init.push(digits.last()) =~= digits);
    }
}

/// The limit past which a magnitude fits no 32-bit signed integer.
pub const MAGNITUDE_LIMIT: u64 = 2147483648;

fn is_digit_char(c: char) -> (b: bool)
    ensures
        b == is_digit(c),
{
    '0' <= c && c <= '9'
}

fn digit_of(c: char) -> (d: u64)
    requires
        is_digit(c),
    ensures
        d == c as int - '0' as int,
        d <= 9,
{
    (c as u32 - '0' as u32) as u64
}

/// Reads a signed decimal integer from the whole of `chars`.
pub fn parse_i32(chars: &Vec<char>) -> (value: Option<i32>)
    ensures
        value == i32_value(chars@),
{
    let n: usize = chars.len();
    let negative: bool = n > 0 && chars[0] == '-';
    let start: usize = if n > 0 && (chars[0] == '+' || chars[0] == '-') {
        1
    } else {
        0
    };
    let ghost digits = unsigned_part(chars@);
    assert(digits =~= chars@.skip(start as int));
    if start == n {
        return None;
    }
    let mut magnitude: u64 = 0;
    let mut overflow: bool = false;
    let mut i: usize = start;
    while i < n
        invariant
            start <= i <= n,
            n == chars@.len(),
            digits == chars@.skip(start as int),
            digits == unsigned_part(chars@),
            all_digits(digits.take(i - start)),
            !overflow ==> magnitude == decimal_value(digits.take(i - start)),
            !overflow ==> magnitude <= MAGNITUDE_LIMIT,
            overflow ==> decimal_value(digits.take(i - start)) > MAGNITUDE_LIMIT,
        decreases n - i,
    {
        let c: char = chars[i];
        let ghost before = digits.take(i - start);
        assert(digits[i - start] == c);
        if !is_digit_char(c) {
            assert(!all_digits(digits));
            return None;
        }
        proof {
            lemma_decimal_value_push(before, c);
            assert(before.push(c) =~= digits.take(i - start + 1));
            assert forall|j: int| 0 <= j < i - start + 1 implies is_digit(
                #[trigger] digits.take(i - start + 1)[j],
            ) by {
                if j < i - start {
                    assert(before[j] == digits[j]);
                }
            }
        }
        if !overflow {
            let next: u64 = magnitude * 10 + digit_of(c);
            if next > MAGNITUDE_LIMIT {
                overflow = true;
            } else {
                magnitude = next;
            }
        }
        i = i + 1;
    }
    assert(digits.take(n - start) =~= digits);
    if overflow {
        None
    } else if negative {
        if magnitude == MAGNITUDE_LIMIT {
            Some(i32::MIN)
        } else {
            Some(-(magnitude as i32))
        }
    } else if magnitude == MAGNITUDE_LIMIT {
        None
    } else {
        Some(magnitude as i32)
    }
}


/// How many decimal digits `s` starts with.
pub open spec fn digit_run(s: Seq<char>) -> nat
    decreases s.len(),
{
    if s.len() > 0 && is_digit(s[0]) {
        1 + digit_run(s.skip(1))
    } else {
        0
    }
}

/// The ASCII lower-case form of `c`.
pub open spec fn lower(c: char) -> char {
    if 'A' <= c <= 'Z' {
        ((c as u8 + 32) as u8) as char
    } else {
        c
    }
}

/// `s` spells `word`, which is in lower case, in any mix of cases.
pub open spec fn spells_ignoring_case(s: Seq<char>, word: Seq<char>) -> bool {
    &&& s.len() == word.len()
    &&& forall|i: int| 0 <= i < s.len() ==> lower(#[trigger] s[i]) == word[i]
}

/// One of the three words for a value that is no finite number.
pub open spec fn is_special(s: Seq<char>) -> bool {
    ||| spells_ignoring_case(s, seq!['i', 'n', 'f'])
    ||| spells_ignoring_case(s, seq!['n', 'a', 'n'])
    ||| spells_ignoring_case(s, seq!['i', 'n', 'f', 'i', 'n', 'i', 't', 'y'])
}

/// An exponent: `e` or `E`, an optional sign, one or more digits.
pub open spec fn is_exponent(s: Seq<char>) -> bool {
    &&& s.len() > 0
    &&& (s[0] == 'e' || s[0] == 'E')
    &&& unsigned_part(s.skip(1)).len() > 0
    &&& all_digits(unsigned_part(s.skip(1)))
}

/// Where the fraction's digits end in `s`, which starts after the whole
/// part: past a `.` and the digits behind it, or at 0 where there is no `.`.
pub open spec fn fraction_end(s: Seq<char>) -> int {
    if s.len() > 0 && s[0] == '.' {
        1 + digit_run(s.skip(1)) as int
    } else {
        0
    }
}

/// An unsigned finite number: digits with at most one `.` among them, at
/// least one digit in all, then possibly an exponent.
pub open spec fn is_number(s: Seq<char>) -> bool {
    let whole = digit_run(s) as int;
    let mantissa = whole + fraction_end(s.skip(whole));
    let digits = if fraction_end(s.skip(whole)) > 0 {
        mantissa - 1
    } else {
        mantissa
    };
    &&& digits > 0
    &&& (mantissa == s.len() || is_exponent(s.skip(mantissa)))
}

/// A real-number literal: an optional sign, then a finite number or one of
/// the special words.
pub open spec fn is_real_literal(s: Seq<char>) -> bool {
    is_special(unsigned_part(s)) || is_number(unsigned_part(s))
}

/// `digit_run` stops at the first character that is no digit.
pub proof fn lemma_digit_run(s: Seq<char>)
    ensures
        digit_run(s) <= s.len(),
        all_digits(s.take(digit_run(s) as int)),
        digit_run(s) < s.len() ==> !is_digit(s[digit_run(s) as int]),
        all_digits(s) <==> digit_run(s) == s.len(),
    decreases s.len(),
{
    if s.len() > 0 && is_digit(s[0]) {
        let rest = s.skip(1);
        lemma_digit_run(rest);
        let k = digit_run(s) as int;
        assert forall|i: int| 0 <= i < k implies is_digit(#[trigger] s.take(k)[i]) by {
            if i > 0 {
                assert(rest.take(k - 1)[i - 1] == s[i]);
            }
        }
        if k < s.len() {
            assert(rest[k - 1] == s[k]);
        }
        if all_digits(s) {
            assert forall|i: int| 0 <= i < rest.len() implies is_digit(#[trigger] rest[i]) by {
                assert(rest[i] == s[i + 1]);
            }
        }
        if k == s.len() {
            assert(s.take(k) =~= s);
        }
    } else {
        assert(s.take(0) =~= Seq::<char>::empty());
        if s.len() > 0 {
            assert(!is_digit(s[0]));
        }
    }
}

/// A character that a number's text can hold: a digit, a sign, a dot, or a
/// letter.
pub open spec fn is_number_char(c: char) -> bool {
    is_digit(c) || is_sign(c) || c == '.' || 'a' <= c <= 'z' || 'A' <= c <= 'Z'
}

/// The text of an integer holds signs and digits only.
pub proof fn lemma_integer_alphabet(s: Seq<char>)
    requires
        integer_value(s) is Some,
    ensures
        forall|j: int| 0 <= j < s.len() ==> is_number_char(#[trigger] s[j]),
{
    let digits = unsigned_part(s);
    assert forall|j: int| 0 <= j < s.len() implies is_number_char(#[trigger] s[j]) by {
        if digits.len() == s.len() {
            assert(is_digit(digits[j]));
        } else if j > 0 {
            assert(is_digit(digits[j - 1]));
        }
    }
}

/// The text of a real-number literal holds digits, signs, dots and letters
/// only.
pub proof fn lemma_real_literal_alphabet(s: Seq<char>)
    requires
        is_real_literal(s),
    ensures
        forall|j: int| 0 <= j < s.len() ==> is_number_char(#[trigger] s[j]),
{
    let body = unsigned_part(s);
    assert forall|j: int| 0 <= j < body.len() implies is_number_char(#[trigger] body[j]) by {
        if is_special(body) {
            let c = body[j];
            assert(lower(c) == 'i' || lower(c) == 'n' || lower(c) == 'f' || lower(c) == 't'
                || lower(c) == 'y' || lower(c) == 'a');
        } else {
            let whole = digit_run(body) as int;
            lemma_digit_run(body);
            let after = body.skip(whole);
            let mantissa = whole + fraction_end(after);
            if j < whole {
                assert(is_digit(body.take(whole)[j]));
            } else if j < mantissa {
                if j > whole {
                    let fraction = after.skip(1);
                    lemma_digit_run(fraction);
                    let run = digit_run(fraction) as int;
                    assert(is_digit(fraction.take(run)[j - whole - 1]));
                }
            } else {
                let tail = body.skip(mantissa);
                assert(is_exponent(tail));
                let digits = unsigned_part(tail.skip(1));
                if j == mantissa {
                    assert(tail[0] == body[j]);
                } else if digits.len() == tail.skip(1).len() {
                    assert(is_digit(digits[j - mantissa - 1]));
                } else if j > mantissa + 1 {
                    assert(is_digit(digits[j - mantissa - 2]));
                } else {
                    assert(tail.skip(1)[0] == body[j]);
                }
            }
        }
    }
    assert forall|j: int| 0 <= j < s.len() implies is_number_char(#[trigger] s[j]) by {
        if body.len() == s.len() {
            assert(is_number_char(body[j]));
        } else if j > 0 {
            assert(is_number_char(body[j - 1]));
        }
    }
}

/// The end of the digits that start at `from`.
fn scan_digits(chars: &Vec<char>, from: usize) -> (to: usize)
    requires
        from <= chars@.len(),
    ensures
        from <= to <= chars@.len(),
        to - from == digit_run(chars@.skip(from as int)),
{
    let n: usize = chars.len();
    let mut to: usize = from;
    while to < n && is_digit_char(chars[to])
        invariant
            from <= to <= n,
            n == chars@.len(),
            to - from + digit_run(chars@.skip(to as int)) == digit_run(chars@.skip(from as int)),
        decreases n - to,
    {
        assert(chars@.skip(to as int)[0] == chars@[to as int]);
        assert(chars@.skip(to as int).skip(1) =~= chars@.skip(to + 1));
        to = to + 1;
    }
    proof {
        if to < n {
            assert(chars@.skip(to as int)[0] == chars@[to as int]);
        }
    }
    to
}

fn lower_char(c: char) -> (l: char)
    ensures
        l == lower(c),
{
    if 'A' <= c && c <= 'Z' {
        ((c as u8) + 32) as char
    } else {
        c
    }
}

/// Whether `chars[from..]` spells the three lower-case letters in any case.
fn spells3(chars: &Vec<char>, from: usize, a: char, b: char, c: char) -> (same: bool)
    requires
        from <= chars@.len(),
    ensures
        same == spells_ignoring_case(chars@.skip(from as int), seq![a, b, c]),
{
    let ghost s = chars@.skip(from as int);
    if chars.len() - from != 3 {
        return false;
    }
    let same = lower_char(chars[from]) == a && lower_char(chars[from + 1]) == b && lower_char(
        chars[from + 2],
    ) == c;
    proof {
        assert(s[0] == chars@[from as int]);
        assert(s[1] == chars@[from + 1]);
        assert(s[2] == chars@[from + 2]);
    }
    same
}

/// Whether `chars[from..]` is one of the special words.
fn is_special_from(chars: &Vec<char>, from: usize) -> (special: bool)
    requires
        from <= chars@.len(),
    ensures
        special == is_special(chars@.skip(from as int)),
{
    let ghost s = chars@.skip(from as int);
    if spells3(chars, from, 'i', 'n', 'f') || spells3(chars, from, 'n', 'a', 'n') {
        return true;
    }
    let ghost word = seq!['i', 'n', 'f', 'i', 'n', 'i', 't', 'y'];
    if chars.len() - from != 8 {
        return false;
    }
    let same = lower_char(chars[from]) == 'i' && lower_char(chars[from + 1]) == 'n' && lower_char(
        chars[from + 2],
    ) == 'f' && lower_char(chars[from + 3]) == 'i' && lower_char(chars[from + 4]) == 'n'
        && lower_char(chars[from + 5]) == 'i' && lower_char(chars[from + 6]) == 't' && lower_char(
        chars[from + 7],
    ) == 'y';
    proof {
        assert forall|i: int| 0 <= i < 8 implies s[i] == chars@[from + i] by {}
        if same {
            assert(spells_ignoring_case(s, word));
        } else {
            assert(!spells_ignoring_case(s, word)) by {
                if lower(s[0]) != word[0] {
                } else if lower(s[1]) != word[1] {
                } else if lower(s[2]) != word[2] {
                } else if lower(s[3]) != word[3] {
                } else if lower(s[4]) != word[4] {
                } else if lower(s[5]) != word[5] {
                } else if lower(s[6]) != word[6] {
                } else {
                    assert(lower(s[7]) != word[7]);
                }
            }
        }
    }
    same
}

/// Whether `chars[from..]` is an exponent.
fn is_exponent_from(chars: &Vec<char>, from: usize) -> (yes: bool)
    requires
        from <= chars@.len(),
    ensures
        yes == is_exponent(chars@.skip(from as int)),
{
    let n: usize = chars.len();
    let ghost s = chars@.skip(from as int);
    if from == n || (chars[from] != 'e' && chars[from] != 'E') {
        return false;
    }
    let start: usize = if from + 1 < n && (chars[from + 1] == '+' || chars[from + 1] == '-') {
        from + 2
    } else {
        from + 1
    };
    let end: usize = scan_digits(chars, start);
    proof {
        assert(s.skip(1) =~= chars@.skip(from + 1));
        assert(unsigned_part(s.skip(1)) =~= chars@.skip(start as int));
        lemma_digit_run(chars@.skip(start as int));
    }
    start < n && end == n
}

/// Whether `chars[from..]` is an unsigned finite number.
fn is_number_from(chars: &Vec<char>, from: usize) -> (yes: bool)
    requires
        from <= chars@.len(),
    ensures
        yes == is_number(chars@.skip(from as int)),
{
    let n: usize = chars.len();
    let ghost s = chars@.skip(from as int);
    let whole_end: usize = scan_digits(chars, from);
    assert(s.skip(whole_end - from) =~= chars@.skip(whole_end as int));
    let dotted: bool = whole_end < n && chars[whole_end] == '.';
    let mantissa_end: usize = if dotted {
        assert(chars@.skip(whole_end as int).skip(1) =~= chars@.skip(whole_end + 1));
        scan_digits(chars, whole_end + 1)
    } else {
        whole_end
    };
    let digits: usize = if dotted {
        mantissa_end - from - 1
    } else {
        mantissa_end - from
    };
    assert(s.skip(mantissa_end - from) =~= chars@.skip(mantissa_end as int));
    if digits == 0 {
        return false;
    }
    mantissa_end == n || is_exponent_from(chars, mantissa_end)
}

/// Whether the whole of `chars` is a real-number literal.
pub fn is_real_literal_chars(chars: &Vec<char>) -> (yes: bool)
    ensures
        yes == is_real_literal(chars@),
{
    let from: usize = if chars.len() > 0 && (chars[0] == '+' || chars[0] == '-') {
        1
    } else {
        0
    };
    assert(unsigned_part(chars@) =~= chars@.skip(from as int));
    is_special_from(chars, from) || is_number_from(chars, from)
}

/// The text of a real-number literal, checked for its shape.
///
/// The library never computes with the number: it hands the text to the
/// caller, whose own conversion accepts exactly this shape.
#[derive(Debug)]
pub struct RealLiteral {
    text: String,
}

impl View for RealLiteral {
    type V = Seq<char>;

    closed spec fn view(&self) -> Seq<char> {
        self.text@
    }
}

impl PartialEq for RealLiteral {
    fn eq(&self, other: &RealLiteral) -> (same: bool) {
        self.same_text(other)
    }
}

impl vstd::std_specs::cmp::PartialEqSpecImpl for RealLiteral {
    open spec fn obeys_eq_spec() -> bool {
        true
    }

    open spec fn eq_spec(&self, other: &RealLiteral) -> bool {
        self@ == other@
    }
}

impl RealLiteral {
    #[verifier::type_invariant]
    spec fn well_formed(self) -> bool {
        is_real_literal(self.text@)
    }

    /// Keeps `text` if it is a real-number literal.
    pub fn new(text: &str) -> (literal: Option<RealLiteral>)
        ensures
            literal is Some <==> is_real_literal(text@),
            literal matches Some(l) ==> l@ == text@,
    {
        let chars = chars_of(text);
        if is_real_literal_chars(&chars) {
            Some(RealLiteral { text: text.to_owned() })
        } else {
            None
        }
    }

    /// Whether two literals have the same text.
    pub fn same_text(&self, other: &RealLiteral) -> (same: bool)
        ensures
            same == (self@ == other@),
    {
        self.text == other.text
    }

    /// The literal's text.
    pub fn as_str(&self) -> (text: &str)
        ensures
            text@ == self@,
            is_real_literal(text@),
    {
        proof {
            use_type_invariant(self);
        }
        self.text.as_str()
    }
}

} // verus!
