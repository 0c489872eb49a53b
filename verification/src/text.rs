//! Text primitives: characters of a string, decimal numerals, ASCII case
//! folding, substring search and the parsing of unsigned numbers.

use vstd::prelude::*;
use vstd::std_specs::iter::IteratorSpec;
use vstd::string::*;

verus! {

/// Why a text is not an unsigned decimal number.
#[derive(Debug, Clone, Copy, PartialEq, Eq, Structural)]
pub enum ParseFailure {
    /// The text holds no character at all.
    Empty,
    /// A character that is no decimal digit stands where a digit is needed.
    InvalidDigit,
    /// The digits read so far already exceed the largest accepted value.
    Overflow,
}

impl ParseFailure {
    /// The sentence that names the failure.
    pub open spec fn reason_text(self) -> Seq<char> {
        match self {
            ParseFailure::Empty => "cannot parse integer from empty string"@,
            ParseFailure::InvalidDigit => "invalid digit found in string"@,
            ParseFailure::Overflow => "number too large to fit in target type"@,
        }
    }

    /// Writes the sentence that names the failure.
    pub fn reason(&self) -> (text: String)
        ensures
            text@ == self.reason_text(),
    {
        match self {
            ParseFailure::Empty => String::from_str("cannot parse integer from empty string"),
            ParseFailure::InvalidDigit => String::from_str("invalid digit found in string"),
            ParseFailure::Overflow => String::from_str("number too large to fit in target type"),
        }
    }
}

/// The character that writes the decimal digit `d`.
pub open spec fn digit_char(d: int) -> char {
    (d + 48) as char
}

/// The decimal numeral of `n`, without leading zeros.
pub open spec fn decimal(n: nat) -> Seq<char>
    decreases n,
{
    if n < 10 {
        seq![digit_char(n as int)]
    } else {
        decimal(n / 10).push(digit_char((n % 10) as int))
    }
}

/// The decimal numeral of `n`, with a minus sign in front of a negative one.
pub open spec fn signed_decimal(n: int) -> Seq<char> {
    if n < 0 {
        seq!['-'] + decimal((-n) as nat)
    } else {
        decimal(n as nat)
    }
}

/// The word that writes a truth value.
pub open spec fn truth_word(b: bool) -> Seq<char> {
    if b {
        "true"@
    } else {
        "false"@
    }
}

/// Whether `c` is one of the ten decimal digits.
pub open spec fn is_digit(c: char) -> bool {
    '0' <= c <= '9'
}

/// The value of the decimal digit `c`.
pub open spec fn digit_value(c: char) -> nat
    recommends
        is_digit(c),
{
    (c as int - 48) as nat
}

/// Reads `s` as a run of decimal digits whose value may not exceed `max`.
/// The first character that is no digit, or the first digit that takes the
/// value over `max`, decides the failure; the empty run has the value 0.
pub open spec fn digits_value(s: Seq<char>, max: nat) -> Result<nat, ParseFailure>
    decreases s.len(),
{
    if s.len() == 0 {
        Ok(0)
    } else {
        match digits_value(s.drop_last(), max) {
            Err(e) => Err(e),
            Ok(v) => if !is_digit(s.last()) {
                Err(ParseFailure::InvalidDigit)
            } else if v * 10 + digit_value(s.last()) > max {
                Err(ParseFailure::Overflow)
            } else {
                Ok(v * 10 + digit_value(s.last()))
            },
        }
    }
}

/// Reads `s` as an unsigned decimal number of at most `max`: one or more
/// digits, with an optional plus sign in front and nothing else around.
pub open spec fn unsigned_value(s: Seq<char>, max: nat) -> Result<nat, ParseFailure> {
    if s.len() == 0 {
        Err(ParseFailure::Empty)
    } else if s[0] == '+' {
        if s.len() == 1 {
            Err(ParseFailure::InvalidDigit)
        } else {
            digits_value(s.subrange(1, s.len() as int), max)
        }
    } else {
        digits_value(s, max)
    }
}

/// `c` with an upper-case ASCII letter replaced by its lower-case form.
pub open spec fn fold(c: char) -> char {
    if 'A' <= c <= 'Z' {
        (c as int + 32) as char
    } else {
        c
    }
}

/// Whether `needle` stands in `hay` at position `at`, ASCII case aside.
pub open spec fn occurs_at(hay: Seq<char>, needle: Seq<char>, at: int) -> bool {
    &&& 0 <= at
    &&& at + needle.len() <= hay.len()
    &&& forall|j: int| 0 <= j < needle.len() ==> fold(hay[at + j]) == fold(#[trigger] needle[j])
}

/// Whether `needle` stands somewhere in `hay`, ASCII case aside.
pub open spec fn contains_folded(hay: Seq<char>, needle: Seq<char>) -> bool {
    exists|at: int| occurs_at(hay, needle, at)
}

/// A decimal numeral is made of digits alone, and of one at least.
pub proof fn lemma_decimal_digits(n: nat)
    ensures
        decimal(n).len() >= 1,
        forall|i: int| 0 <= i < decimal(n).len() ==> is_digit(#[trigger] decimal(n)[i]),
    decreases n,
{
    if n >= 10 {
        lemma_decimal_digits(n / 10);
    }
}

/// A numeral reads back as the number it writes: for every `n` of at most
/// `max`, `unsigned_value(decimal(n), max)` is `n`.
pub proof fn law_numeral_reads_back(n: nat, max: nat)
    requires
        n <= max,
    ensures
        digits_value(decimal(n), max) == Ok::<nat, ParseFailure>(n),
        unsigned_value(decimal(n), max) == Ok::<nat, ParseFailure>(n),
    decreases n,
{
    lemma_decimal_digits(n);
    let numeral = decimal(n);
    assert(is_digit(numeral[0]));
    if n < 10 {
        assert(numeral.drop_last() =~= Seq::<char>::empty());
        assert(digits_value(numeral.drop_last(), max) == Ok::<nat, ParseFailure>(0));
        assert(digit_value(numeral.last()) == n);
    } else {
        law_numeral_reads_back(n / 10, max);
        assert(numeral.drop_last() =~= decimal(n / 10));
        assert(digit_value(numeral.last()) == n % 10);
    }
}

/// `String::push` of the standard library: the text gains `c` at its end.
#[verifier::external_body]
pub(crate) fn push_char(text: &mut String, c: char)
    ensures
        final(text)@ == old(text)@.push(c),
{
    text.push(c)
}

/// The characters of `s`, in order.
pub fn chars_of(s: &str) -> (v: Vec<char>)
    ensures
        v@ == s@,
{
    broadcast use vstd::string::group_string_axioms;

    let mut it = s.chars();
    let mut v: Vec<char> = Vec::new();
    loop
        invariant
            v@ + it.remaining() == s@,
        ensures
            v@ == s@,
        decreases s@.len() - v@.len(),
    {
        match it.next() {
            Some(c) => {
                v.push(c);
            },
            None => {
                break ;
            },
        }
    }
    v
}

fn digit(d: u8) -> (c: char)
    requires
        d < 10,
    ensures
        c == digit_char(d as int),
{
    (d + 48) as char
}

fn push_decimal(text: &mut String, n: u64)
    ensures
        final(text)@ == old(text)@ + decimal(n as nat),
    decreases n,
{
    if n >= 10 {
        push_decimal(text, n / 10);
    }
    push_char(text, digit((n % 10) as u8));
}

/// Writes `n` in decimal.
pub fn decimal_text(n: u64) -> (text: String)
    ensures
        text@ == decimal(n as nat),
{
    let mut text = String::new();
    push_decimal(&mut text, n);
    text
}

/// Writes `n` in decimal, with a minus sign where it is negative.
pub fn signed_text(n: i64) -> (text: String)
    ensures
        text@ == signed_decimal(n as int),
{
    let mut text = String::new();
    if n < 0 {
        push_char(&mut text, '-');
        let magnitude: u64 = if n == i64::MIN {
            9223372036854775808u64
        } else {
            (-n) as u64
        };
        push_decimal(&mut text, magnitude);
    } else {
        push_decimal(&mut text, n as u64);
    }
    text
}

/// Writes a truth value as a word.
pub fn truth_text(b: bool) -> (text: String)
    ensures
        text@ == truth_word(b),
{
    if b {
        String::from_str("true")
    } else {
        String::from_str("false")
    }
}

fn fold_char(c: char) -> (r: char)
    ensures
        r == fold(c),
{
    let code: u32 = c as u32;
    if 65 <= code && code <= 90 {
        let lowered: u8 = (code + 32) as u8;
        lowered as char
    } else {
        c
    }
}

fn matches_at(hay: &Vec<char>, needle: &Vec<char>, at: usize) -> (found: bool)
    requires
        at + needle.len() <= hay.len(),
    ensures
        found == occurs_at(hay@, needle@, at as int),
{
    let mut j: usize = 0;
    while j < needle.len()
        invariant
            j <= needle.len(),
            at + needle.len() <= hay.len(),
            forall|k: int| 0 <= k < j ==> fold(hay@[at + k]) == fold(#[trigger] needle@[k]),
        decreases needle.len() - j,
    {
        if fold_char(hay[at + j]) != fold_char(needle[j]) {
            return false;
        }
        j = j + 1;
    }
    true
}

/// Tests whether `needle` occurs in `hay` as a substring, not telling an
/// upper-case ASCII letter from its lower-case form.
pub fn contains_ignore_case(hay: &str, needle: &str) -> (found: bool)
    ensures
        found == contains_folded(hay@, needle@),
{
    let h = chars_of(hay);
    let n = chars_of(needle);
    if n.len() > h.len() {
        return false;
    }
    let last: usize = h.len() - n.len();
    let mut at: usize = 0;
    while at <= last
        invariant
            at <= last + 1,
            last + n.len() == h.len(),
            h@ == hay@,
            n@ == needle@,
            forall|k: int| 0 <= k < at ==> !occurs_at(hay@, needle@, k),
        decreases last + 1 - at,
    {
        if matches_at(&h, &n, at) {
            return true;
        }
        at = at + 1;
    }
    false
}

fn scan_digits(chars: &Vec<char>, from: usize, max: u32) -> (r: Result<u32, ParseFailure>)
    requires
        from <= chars.len(),
    ensures
        match digits_value(chars@.subrange(from as int, chars.len() as int), max as nat) {
            Ok(v) => r == Ok::<u32, ParseFailure>(v as u32),
            Err(e) => r == Err::<u32, ParseFailure>(e),
        },
{
    let ghost run = chars@.subrange(from as int, chars.len() as int);
    let mut value: u64 = 0;
    let mut i: usize = from;
    while i < chars.len()
        invariant
            from <= i <= chars.len(),
            run == chars@.subrange(from as int, chars.len() as int),
            value <= max,
            digits_value(run.take(i - from), max as nat) == Ok::<nat, ParseFailure>(value as nat),
        decreases chars.len() - i,
    {
        let c: char = chars[i];
        proof {
            assert(run.take(i - from + 1).drop_last() == run.take(i - from));
            assert(run.take(i - from + 1).last() == c);
        }
        if !('0' <= c && c <= '9') {
            proof {
                lemma_failure_stays(run, (i - from + 1) as int, max as nat);
            }
            return Err(ParseFailure::InvalidDigit);
        }
        let d: u64 = (c as u32 - 48) as u64;
        if value * 10 + d > max as u64 {
            proof {
                lemma_failure_stays(run, (i - from + 1) as int, max as nat);
            }
            return Err(ParseFailure::Overflow);
        }
        value = value * 10 + d;
        i = i + 1;
    }
    proof {
        assert(run.take(i - from) == run);
    }
    Ok(value as u32)
}

/// A failure met in a prefix of the digits is the failure of the whole run.
proof fn lemma_failure_stays(s: Seq<char>, len: int, max: nat)
    requires
        0 <= len <= s.len(),
        digits_value(s.take(len), max) is Err,
    ensures
        digits_value(s, max) == digits_value(s.take(len), max),
    decreases s.len() - len,
{
    if len < s.len() {
        assert(s.take(len + 1).drop_last() == s.take(len));
        lemma_failure_stays(s, len + 1, max);
    } else {
        assert(s.take(len) == s);
    }
}

/// Reads `text` as an unsigned decimal number that fits `max`.
pub fn parse_unsigned(text: &str, max: u32) -> (r: Result<u32, ParseFailure>)
    ensures
        match unsigned_value(text@, max as nat) {
            Ok(v) => r == Ok::<u32, ParseFailure>(v as u32),
            Err(e) => r == Err::<u32, ParseFailure>(e),
        },
{
    let chars = chars_of(text);
    if chars.len() == 0 {
        Err(ParseFailure::Empty)
    } else if chars[0] == '+' {
        if chars.len() == 1 {
            Err(ParseFailure::InvalidDigit)
        } else {
            scan_digits(&chars, 1, max)
        }
    } else {
        proof {
            assert(chars@.subrange(0, chars.len() as int) == chars@);
        }
        scan_digits(&chars, 0, max)
    }
}

} // verus!
