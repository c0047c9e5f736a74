//! Text that the marketplace reads and writes: trimming of what users type.

use vstd::prelude::*;
use vstd::string::{StrSliceExecFns, StringExecFns};

verus! {

/// Whether `char::is_whitespace` holds of a character: whether it has the
/// Unicode property `White_Space`.
pub uninterp spec fn is_whitespace(c: char) -> bool;

/// `char::is_whitespace`: the result is the property that bears its name.
#[verifier::external_body]
pub(crate) fn char_is_whitespace(c: char) -> (white: bool)
    ensures
        white == is_whitespace(c),
{
    c.is_whitespace()
}

/// The text without the whitespace it starts with.
pub open spec fn trim_start(s: Seq<char>) -> Seq<char>
    decreases s.len(),
{
    if s.len() > 0 && is_whitespace(s[0]) {
        trim_start(s.subrange(1, s.len() as int))
    } else {
        s
    }
}

/// The text without the whitespace it ends with.
pub open spec fn trim_end(s: Seq<char>) -> Seq<char>
    decreases s.len(),
{
    if s.len() > 0 && is_whitespace(s.last()) {
        trim_end(s.drop_last())
    } else {
        s
    }
}

/// The text without the whitespace around it.
pub open spec fn trimmed(s: Seq<char>) -> Seq<char> {
    trim_end(trim_start(s))
}

/// Every character of the text is whitespace.
pub open spec fn is_blank(s: Seq<char>) -> bool {
    forall|i: int| 0 <= i < s.len() ==> is_whitespace(#[trigger] s[i])
}

/// Nothing is left of a text when it is trimmed exactly if it is blank.
pub proof fn lemma_trimmed_empty_iff_blank(s: Seq<char>)
    ensures
        trimmed(s).len() == 0 <==> is_blank(s),
{
    lemma_trim_start_shape(s);
    let t = trim_start(s);
    lemma_trim_end_shape(t);
    let k = s.len() - t.len();
    if is_blank(s) {
        if t.len() > 0 {
            assert(t[0] == s[k]);
        }
        assert(trimmed(s).len() == 0);
    }
    if trimmed(s).len() == 0 {
        if t.len() > 0 {
            assert(is_blank(t));
            assert(is_whitespace(t[0]));
        }
        assert forall|i: int| 0 <= i < s.len() implies is_whitespace(#[trigger] s[i]) by {}
    }
}

/// `trim_start` cuts a run of whitespace off the front, and stops at the
/// first character that is none.
pub proof fn lemma_trim_start_shape(s: Seq<char>)
    ensures
        trim_start(s).len() <= s.len(),
        trim_start(s) == s.subrange(s.len() - trim_start(s).len(), s.len() as int),
        forall|i: int| 0 <= i < s.len() - trim_start(s).len() ==> is_whitespace(#[trigger] s[i]),
        trim_start(s).len() > 0 ==> !is_whitespace(trim_start(s)[0]),
    decreases s.len(),
{
    if s.len() > 0 && is_whitespace(s[0]) {
        let rest = s.subrange(1, s.len() as int);
        lemma_trim_start_shape(rest);
        let t = trim_start(rest);
        assert(t == s.subrange(s.len() - t.len(), s.len() as int));
        assert forall|i: int| 0 <= i < s.len() - t.len() implies is_whitespace(#[trigger] s[i]) by {
            if i > 0 {
                assert(s[i] == rest[i - 1]);
            }
        }
    } else {
        assert(s == s.subrange(0, s.len() as int));
    }
}

/// `trim_end` cuts a run of whitespace off the back: what it leaves is blank
/// only if it is empty.
pub proof fn lemma_trim_end_shape(s: Seq<char>)
    ensures
        trim_end(s).len() <= s.len(),
        trim_end(s) == s.subrange(0, trim_end(s).len() as int),
        forall|i: int| trim_end(s).len() <= i < s.len() ==> is_whitespace(#[trigger] s[i]),
        trim_end(s).len() > 0 ==> !is_whitespace(trim_end(s).last()),
    decreases s.len(),
{
    if s.len() > 0 && is_whitespace(s.last()) {
        let rest = s.drop_last();
        lemma_trim_end_shape(rest);
        let t = trim_end(rest);
        assert(t == s.subrange(0, t.len() as int));
        assert forall|i: int| t.len() <= i < s.len() implies is_whitespace(#[trigger] s[i]) by {
            if i < s.len() - 1 {
                assert(s[i] == rest[i]);
            }
        }
    } else {
        assert(s == s.subrange(0, s.len() as int));
    }
}

/// The text without the whitespace around it.
pub fn trim(s: &str) -> (core: &str)
    ensures
        core@ == trimmed(s@),
{
    let n = s.unicode_len();
    let mut a: usize = 0;
    proof {
        assert(s@.subrange(0, n as int) == s@);
    }
    while a < n && char_is_whitespace(s.get_char(a))
        invariant
            a <= n,
            n == s@.len(),
            trim_start(s@) == trim_start(s@.subrange(a as int, n as int)),
        decreases n - a,
    {
        proof {
            let rest = s@.subrange(a as int, n as int);
            assert(rest[0] == s@[a as int]);
            assert(rest.subrange(1, rest.len() as int) == s@.subrange(a + 1, n as int));
        }
        a += 1;
    }
    let mut b: usize = n;
    proof {
        let rest = s@.subrange(a as int, n as int);
        if a < n {
            assert(rest[0] == s@[a as int]);
        }
        assert(trim_start(s@) == rest);
    }
    while b > a && char_is_whitespace(s.get_char(b - 1))
        invariant
            a <= b <= n,
            n == s@.len(),
            trimmed(s@) == trim_end(s@.subrange(a as int, b as int)),
        decreases b - a,
    {
        proof {
            let part = s@.subrange(a as int, b as int);
            assert(part.last() == s@[b - 1]);
            assert(part.drop_last() == s@.subrange(a as int, b - 1));
        }
        b -= 1;
    }
    proof {
        let part = s@.subrange(a as int, b as int);
        if b > a {
            assert(part.last() == s@[b - 1]);
        }
        assert(trim_end(part) == part);
    }
    s.substring_char(a, b)
}

/// The characters of a text, one by one.
pub fn to_chars(s: &str) -> (chars: Vec<char>)
    ensures
        chars@ == s@,
{
    let n = s.unicode_len();
    let mut chars: Vec<char> = Vec::new();
    let mut i: usize = 0;
    while i < n
        invariant
            i <= n,
            n == s@.len(),
            chars@ == s@.take(i as int),
        decreases n - i,
    {
        chars.push(s.get_char(i));
        assert(chars@ == s@.take(i + 1));
        i += 1;
    }
    assert(s@.take(n as int) == s@);
    chars
}

/// The character is one of the ten decimal digits.
pub open spec fn is_digit(c: char) -> bool {
    '0' <= c <= '9'
}

/// Every character of the text is a decimal digit.
pub open spec fn is_digits(s: Seq<char>) -> bool {
    forall|i: int| 0 <= i < s.len() ==> is_digit(#[trigger] s[i])
}

/// The number that a run of decimal digits writes; zero for no digits.
pub open spec fn digits_value(s: Seq<char>) -> nat
    decreases s.len(),
{
    if s.len() == 0 {
        0
    } else {
        digits_value(s.drop_last()) * 10 + (s.last() as nat - '0' as nat) as nat
    }
}

/// Where the first decimal point of the text stands; its length where it has
/// none.
pub open spec fn point_at(s: Seq<char>) -> int
    decreases s.len(),
{
    if s.len() == 0 || s[0] == '.' {
        0
    } else {
        1 + point_at(s.subrange(1, s.len() as int))
    }
}

/// The cents that the digits behind the decimal point stand for: the first
/// two count, a missing one counts as zero, and any further ones are dropped.
pub open spec fn fraction_cents(fraction: Seq<char>) -> nat {
    if fraction.len() == 0 {
        0
    } else if fraction.len() == 1 {
        digits_value(fraction) * 10
    } else {
        digits_value(fraction.take(2))
    }
}

/// The amount in cents that a text writes, if it writes one.
///
/// An amount is a run of digits, or a run of digits, a decimal point and a
/// run of digits, with a digit on at least one side of the point. Digits
/// beyond the cents are dropped.
pub open spec fn amount_written(s: Seq<char>) -> Option<nat> {
    let point = point_at(s);
    let whole = s.take(point);
    let fraction = if point < s.len() {
        s.skip(point + 1)
    } else {
        Seq::<char>::empty()
    };
    if is_digits(whole) && is_digits(fraction) && whole.len() + fraction.len() > 0 {
        Some(digits_value(whole) * 100 + fraction_cents(fraction))
    } else {
        None
    }
}

/// What parsing an amount gives: the amount written, where there is one and
/// it fits.
pub open spec fn parsed_amount(s: Seq<char>) -> Option<u64> {
    match amount_written(s) {
        Some(cents) => if cents <= u64::MAX {
            Some(cents as u64)
        } else {
            None
        },
        None => None,
    }
}

/// A text whose first `point` characters are no decimal points, and which
/// ends there or has one there, has its first decimal point at `point`.
pub proof fn lemma_point_at(s: Seq<char>, point: int)
    requires
        0 <= point <= s.len(),
        forall|k: int| 0 <= k < point ==> #[trigger] s[k] != '.',
        point < s.len() ==> s[point] == '.',
    ensures
        point_at(s) == point,
    decreases point,
{
    if point > 0 {
        let rest = s.subrange(1, s.len() as int);
        assert forall|k: int| 0 <= k < point - 1 implies #[trigger] rest[k] != '.' by {
            assert(rest[k] == s[k + 1]);
        }
        lemma_point_at(rest, point - 1);
    }
}

/// The digits of a number's beginning write no more than the number.
pub proof fn lemma_digits_value_grows(s: Seq<char>, i: int)
    requires
        0 <= i <= s.len(),
    ensures
        digits_value(s.take(i)) <= digits_value(s),
    decreases s.len(),
{
    if i < s.len() {
        assert(s.drop_last().take(i) == s.take(i));
        lemma_digits_value_grows(s.drop_last(), i);
    } else {
        assert(s.take(i) == s);
    }
}

/// The limit on the whole part of an amount that fits in cents.
pub const MAX_WHOLE: u64 = 184467440737095516;

/// The value of a decimal digit.
fn digit_of(c: char) -> (d: u64)
    requires
        is_digit(c),
    ensures
        d == c as nat - '0' as nat,
        d <= 9,
{
    (c as u32 - '0' as u32) as u64
}

/// The amount in cents that the characters write, if they write one that
/// fits.
pub fn parse_amount_chars(chars: &Vec<char>) -> (amount: Option<u64>)
    ensures
        amount == parsed_amount(chars@),
{
    let n = chars.len();
    let mut point: usize = 0;
    while point < n && chars[point] != '.'
        invariant
            point <= n,
            n == chars@.len(),
            forall|k: int| 0 <= k < point ==> #[trigger] chars@[k] != '.',
        decreases n - point,
    {
        point += 1;
    }
    proof {
        lemma_point_at(chars@, point as int);
    }
    let ghost whole = chars@.take(point as int);
    let ghost fraction = if point < n {
        chars@.skip(point + 1)
    } else {
        Seq::<char>::empty()
    };
    let mut i: usize = 0;
    while i < n
        invariant
            i <= n,
            point <= n,
            n == chars@.len(),
            whole == chars@.take(point as int),
            fraction == if point < n {
                chars@.skip(point + 1)
            } else {
                Seq::<char>::empty()
            },
            point_at(chars@) == point,
            forall|k: int| 0 <= k < i && k != point ==> is_digit(#[trigger] chars@[k]),
        decreases n - i,
    {
        if i != point && !('0' <= chars[i] && chars[i] <= '9') {
            proof {
                if i < point {
                    assert(whole[i as int] == chars@[i as int]);
                    assert(!is_digit(whole[i as int]));
                    assert(!is_digits(whole));
                } else {
                    assert(fraction[i - point - 1] == chars@[i as int]);
                    assert(!is_digit(fraction[i - point - 1]));
                    assert(!is_digits(fraction));
                }
            }
            return None;
        }
        i += 1;
    }
    proof {
        assert(is_digits(whole));
        assert(is_digits(fraction)) by {
            assert forall|k: int| 0 <= k < fraction.len() implies is_digit(
                #[trigger] fraction[k],
            ) by {
                assert(fraction[k] == chars@[k + point + 1]);
            }
        }
    }
    let digits = if point < n {
        n - 1
    } else {
        n
    };
    if digits == 0 {
        return None;
    }
    let mut value: u64 = 0;
    let mut j: usize = 0;
    while j < point
        invariant
            j <= point <= n,
            n == chars@.len(),
            whole == chars@.take(point as int),
            is_digits(whole),
            point_at(chars@) == point,
            fraction == if point < n {
                chars@.skip(point + 1)
            } else {
                Seq::<char>::empty()
            },
            is_digits(fraction),
            whole.len() + fraction.len() > 0,
            value == digits_value(whole.take(j as int)),
            value <= MAX_WHOLE,
        decreases point - j,
    {
        assert(whole[j as int] == chars@[j as int]);
        let d = digit_of(chars[j]);
        let next = value * 10 + d;
        proof {
            let upto = whole.take(j + 1);
            assert(upto.drop_last() == whole.take(j as int));
            assert(upto.last() == chars@[j as int]);
            assert(digits_value(upto) == next);
            lemma_digits_value_grows(whole, j + 1);
        }
        if next > MAX_WHOLE {
            proof {
                assert(digits_value(whole) >= MAX_WHOLE + 1);
                assert(digits_value(whole) * 100 + fraction_cents(fraction) > u64::MAX);
                assert(whole.len() + fraction.len() > 0);
            }
            return None;
        }
        value = next;
        j += 1;
    }
    proof {
        assert(whole.take(point as int) == whole);
    }
    let mut cents: u64 = 0;
    if point < n {
        let len = n - point - 1;
        if len >= 1 {
            assert(fraction[0] == chars@[point + 1]);
            let first = digit_of(chars[point + 1]);
            if len >= 2 {
                assert(fraction[1] == chars@[point + 2]);
                let second = digit_of(chars[point + 2]);
                cents = first * 10 + second;
                proof {
                    let two = fraction.take(2);
                    assert(two.drop_last().drop_last().len() == 0);
                    assert(two.drop_last().last() == fraction[0]);
                    assert(two.last() == fraction[1]);
                    reveal_with_fuel(digits_value, 3);
                }
            } else {
                cents = first * 10;
                proof {
                    assert(fraction.drop_last().len() == 0);
                    reveal_with_fuel(digits_value, 2);
                }
            }
        }
    }
    assert(cents == fraction_cents(fraction));
    assert(cents <= 99);
    if cents > u64::MAX - value * 100 {
        return None;
    }
    Some(value * 100 + cents)
}

/// The amount in cents that a text writes, if it writes one that fits.
pub fn parse_amount(text: &str) -> (amount: Option<u64>)
    ensures
        amount == parsed_amount(text@),
{
    let chars = to_chars(text);
    parse_amount_chars(&chars)
}

/// The code of a character with the capital letters A to Z taken for their
/// small ones; no other character is changed.
pub open spec fn folded(c: char) -> u32 {
    if 'A' <= c <= 'Z' {
        (c as u32 + 32) as u32
    } else {
        c as u32
    }
}

/// The needle stands in the text at `at`, the case of the letters A to Z
/// aside.
pub open spec fn matches_at(text: Seq<char>, needle: Seq<char>, at: int) -> bool {
    &&& 0 <= at
    &&& at + needle.len() <= text.len()
    &&& forall|i: int| 0 <= i < needle.len() ==> folded(text[at + i]) == folded(#[trigger] needle[i])
}

/// The needle stands somewhere in the text, the case of the letters A to Z
/// aside.
pub open spec fn contains_text(text: Seq<char>, needle: Seq<char>) -> bool {
    exists|at: int| #[trigger] matches_at(text, needle, at)
}

/// The code of a character with capital A to Z taken for their small ones.
fn fold(c: char) -> (code: u32)
    ensures
        code == folded(c),
{
    if 'A' <= c && c <= 'Z' {
        c as u32 + 32
    } else {
        c as u32
    }
}

/// Whether the needle stands in the text at `at`.
fn stands_at(text: &Vec<char>, needle: &Vec<char>, at: usize) -> (found: bool)
    requires
        at + needle@.len() <= text@.len(),
    ensures
        found == matches_at(text@, needle@, at as int),
{
    let n = text.len();
    let mut i: usize = 0;
    while i < needle.len()
        invariant
            i <= needle@.len(),
            at + needle@.len() <= text@.len(),
            text@.len() == n,
            forall|k: int| 0 <= k < i ==> folded(text@[at + k]) == folded(#[trigger] needle@[k]),
        decreases needle@.len() - i,
    {
        assert(at + i < text@.len());
        if fold(text[at + i]) != fold(needle[i]) {
            return false;
        }
        i += 1;
    }
    true
}

/// Whether the needle stands somewhere in the text, the case of the letters
/// A to Z aside.
pub fn contains_chars(text: &Vec<char>, needle: &Vec<char>) -> (found: bool)
    ensures
        found == contains_text(text@, needle@),
{
    if needle.len() > text.len() {
        assert forall|at: int| !#[trigger] matches_at(text@, needle@, at) by {}
        return false;
    }
    let last = text.len() - needle.len();
    let mut at: usize = 0;
    loop
        invariant
            at <= last,
            last == text@.len() - needle@.len(),
            forall|k: int| 0 <= k < at ==> !#[trigger] matches_at(text@, needle@, k),
        ensures
            forall|k: int| 0 <= k <= last ==> !#[trigger] matches_at(text@, needle@, k),
        decreases last - at,
    {
        if stands_at(text, needle, at) {
            return true;
        }
        if at == last {
            break ;
        }
        at += 1;
    }
    assert forall|k: int| !#[trigger] matches_at(text@, needle@, k) by {}
    false
}

/// `String::push`: the character is added at the end of the text.
#[verifier::external_body]
pub(crate) fn push_char(text: &mut String, c: char)
    ensures
        final(text)@ == old(text)@.push(c),
{
    text.push(c)
}

/// The character that writes a digit.
pub open spec fn digit_char(digit: nat) -> char {
    if digit == 0 {
        '0'
    } else if digit == 1 {
        '1'
    } else if digit == 2 {
        '2'
    } else if digit == 3 {
        '3'
    } else if digit == 4 {
        '4'
    } else if digit == 5 {
        '5'
    } else if digit == 6 {
        '6'
    } else if digit == 7 {
        '7'
    } else if digit == 8 {
        '8'
    } else {
        '9'
    }
}

/// A number in decimal digits, without leading zeros.
pub open spec fn decimal_digits(n: nat) -> Seq<char>
    decreases n,
{
    if n < 10 {
        seq![digit_char(n)]
    } else {
        decimal_digits(n / 10).push(digit_char(n % 10))
    }
}

/// The character that writes a digit.
fn digit_to_char(digit: u64) -> (c: char)
    requires
        digit < 10,
    ensures
        c == digit_char(digit as nat),
{
    if digit == 0 {
        '0'
    } else if digit == 1 {
        '1'
    } else if digit == 2 {
        '2'
    } else if digit == 3 {
        '3'
    } else if digit == 4 {
        '4'
    } else if digit == 5 {
        '5'
    } else if digit == 6 {
        '6'
    } else if digit == 7 {
        '7'
    } else if digit == 8 {
        '8'
    } else {
        '9'
    }
}

/// Writes a number in decimal digits at the end of a text.
pub fn push_decimal(text: &mut String, n: u64)
    ensures
        final(text)@ == old(text)@ + decimal_digits(n as nat),
    decreases n,
{
    if n < 10 {
        push_char(text, digit_to_char(n));
        assert(text@ == old(text)@ + decimal_digits(n as nat));
    } else {
        push_decimal(text, n / 10);
        push_char(text, digit_to_char(n % 10));
        assert(text@ == old(text)@ + decimal_digits(n as nat));
    }
}

/// A number in decimal digits.
pub fn decimal(n: u64) -> (text: String)
    ensures
        text@ == decimal_digits(n as nat),
{
    let mut text = String::new();
    push_decimal(&mut text, n);
    assert(text@ == decimal_digits(n as nat));
    text
}

/// An amount of cents as a price: a dollar sign, the dollars, a point and
/// the cents in two digits.
pub open spec fn price_text(cents: u64) -> Seq<char> {
    seq!['$'] + decimal_digits(cents as nat / 100) + seq![
        '.',
        digit_char(cents as nat % 100 / 10),
        digit_char(cents as nat % 10),
    ]
}

/// Writes an amount of cents as a price at the end of a text.
pub fn push_price(text: &mut String, cents: u64)
    ensures
        final(text)@ == old(text)@ + price_text(cents),
{
    push_char(text, '$');
    push_decimal(text, cents / 100);
    push_char(text, '.');
    push_char(text, digit_to_char(cents % 100 / 10));
    push_char(text, digit_to_char(cents % 10));
    assert(text@ == old(text)@ + price_text(cents));
}

/// An amount of cents as a price, such as `$29.90`.
pub fn format_price(price: u64) -> (text: String)
    ensures
        text@ == price_text(price),
{
    let mut text = String::new();
    push_price(&mut text, price);
    assert(text@ == price_text(price));
    text
}

/// An amount of cents in whole dollars, rounded to the nearest; half a
/// dollar is rounded to the even one.
pub open spec fn whole_dollars(cents: u64) -> nat {
    let dollars = cents as nat / 100;
    let rest = cents as nat % 100;
    if rest > 50 || (rest == 50 && dollars % 2 == 1) {
        dollars + 1
    } else {
        dollars
    }
}

/// An amount of cents in whole dollars, rounded to the nearest; half a
/// dollar is rounded to the even one.
pub fn round_to_dollars(cents: u64) -> (dollars: u64)
    ensures
        dollars == whole_dollars(cents),
{
    let dollars = cents / 100;
    let rest = cents % 100;
    if rest > 50 || (rest == 50 && dollars % 2 == 1) {
        dollars + 1
    } else {
        dollars
    }
}

/// How long ago something happened, in words: in minutes below an hour, in
/// hours below a day, in days below a week, in weeks below thirty days, and
/// in months of thirty days beyond; "just now" below a minute, and for what
/// lies in the future.
pub open spec fn age_text(now: i64, then: i64) -> Seq<char> {
    let seconds = now - then;
    if seconds < 60 {
        "just now"@
    } else if seconds < 3600 {
        decimal_digits((seconds / 60) as nat) + "m ago"@
    } else if seconds < 86400 {
        decimal_digits((seconds / 3600) as nat) + "h ago"@
    } else if seconds < 7 * 86400 {
        decimal_digits((seconds / 86400) as nat) + "d ago"@
    } else if seconds < 30 * 86400 {
        decimal_digits((seconds / 86400 / 7) as nat) + "w ago"@
    } else {
        decimal_digits((seconds / 86400 / 30) as nat) + "mo ago"@
    }
}

/// How long before `now` a time lies, in words.
pub fn time_ago_at(now: i64, then: i64) -> (text: String)
    ensures
        text@ == age_text(now, then),
{
    let seconds: i128 = now as i128 - then as i128;
    if seconds < 60 {
        return "just now".to_owned();
    }
    let (count, unit) = if seconds < 3600 {
        ((seconds / 60) as u64, "m ago")
    } else if seconds < 86400 {
        ((seconds / 3600) as u64, "h ago")
    } else if seconds < 7 * 86400 {
        ((seconds / 86400) as u64, "d ago")
    } else if seconds < 30 * 86400 {
        ((seconds / 86400 / 7) as u64, "w ago")
    } else {
        ((seconds / 86400 / 30) as u64, "mo ago")
    };
    let mut text = decimal(count);
    text.append(unit);
    text
}

/// How long ago a time lies, in words, by the server's clock.
pub fn time_ago(then: i64) -> (text: String)
    ensures
        exists|now: i64| text@ == age_text(now, then),
{
    let now = crate::host::current_timestamp();
    let text = time_ago_at(now, then);
    assert(text@ == age_text(now, then));
    text
}

/// What stands for a character in HTML text: an entity for `&`, `<`, `>`,
/// `"`, `'` and `/`, and the character itself otherwise.
pub open spec fn escaped_char(c: char) -> Seq<char> {
    if c == '&' {
        "&amp;"@
    } else if c == '<' {
        "&lt;"@
    } else if c == '>' {
        "&gt;"@
    } else if c == '"' {
        "&quot;"@
    } else if c == '\'' {
        "&#x27;"@
    } else if c == '/' {
        "&#x2F;"@
    } else {
        seq![c]
    }
}

/// A text as it stands in HTML: every character by what stands for it.
pub open spec fn escaped(s: Seq<char>) -> Seq<char>
    decreases s.len(),
{
    if s.len() == 0 {
        Seq::<char>::empty()
    } else {
        escaped(s.drop_last()) + escaped_char(s.last())
    }
}

/// Writes a text at the end of another as it stands in HTML.
pub fn push_escaped(text: &mut String, raw: &str)
    ensures
        final(text)@ == old(text)@ + escaped(raw@),
{
    let chars = to_chars(raw);
    let mut i: usize = 0;
    assert(chars@.take(0) == Seq::<char>::empty());
    while i < chars.len()
        invariant
            i <= chars@.len(),
            chars@ == raw@,
            text@ == old(text)@ + escaped(chars@.take(i as int)),
        decreases chars@.len() - i,
    {
        let c = chars[i];
        proof {
            let more = chars@.take(i + 1);
            assert(more.drop_last() == chars@.take(i as int));
            assert(more.last() == c);
        }
        if c == '&' {
            text.append("&amp;");
        } else if c == '<' {
            text.append("&lt;");
        } else if c == '>' {
            text.append("&gt;");
        } else if c == '"' {
            text.append("&quot;");
        } else if c == '\'' {
            text.append("&#x27;");
        } else if c == '/' {
            text.append("&#x2F;");
        } else {
            push_char(text, c);
        }
        assert(text@ == old(text)@ + escaped(chars@.take(i + 1)));
        i += 1;
    }
    assert(chars@.take(i as int) == chars@);
}

/// A text as it stands in HTML.
pub fn escape_html(raw: &str) -> (text: String)
    ensures
        text@ == escaped(raw@),
{
    let mut text = String::new();
    push_escaped(&mut text, raw);
    assert(text@ == escaped(raw@));
    text
}

/// The test for the characters of an amount: all but the dollar sign and the
/// comma that groups thousands.
pub open spec fn is_no_mark() -> spec_fn(char) -> bool {
    |c: char| c != '$' && c != ','
}

/// The amount in cents that a text writes once its dollar signs and commas
/// are taken out; nothing where it then writes none.
pub open spec fn offered_amount(text: Seq<char>) -> u64 {
    match parsed_amount(text.filter(is_no_mark())) {
        Some(cents) => cents,
        None => 0,
    }
}

/// The amount in cents that a text writes, dollar signs and commas aside.
pub fn parse_offer_amount(text: &str) -> (amount: u64)
    ensures
        amount == offered_amount(text@),
{
    let chars = to_chars(text);
    let ghost keep = is_no_mark();
    let mut plain: Vec<char> = Vec::new();
    let mut i: usize = 0;
    proof {
        crate::seqs::lemma_filter_empty(chars@.take(0), keep);
    }
    while i < chars.len()
        invariant
            i <= chars@.len(),
            keep == is_no_mark(),
            plain@ == chars@.take(i as int).filter(keep),
        decreases chars@.len() - i,
    {
        proof {
            crate::seqs::lemma_filter_take_step(chars@, keep, i as int);
        }
        if chars[i] != '$' && chars[i] != ',' {
            plain.push(chars[i]);
        }
        i += 1;
    }
    proof {
        assert(chars@.take(i as int) == chars@);
    }
    match parse_amount_chars(&plain) {
        Some(cents) => cents,
        None => 0,
    }
}

/// The first text comes before the second in the order of a dictionary whose
/// alphabet is the characters by their codes: at the first place where the
/// two differ the first has the smaller character, or the first ends there
/// and the second goes on.
pub open spec fn precedes(a: Seq<char>, b: Seq<char>) -> bool
    decreases a.len(),
{
    if b.len() == 0 {
        false
    } else if a.len() == 0 {
        true
    } else if a[0] != b[0] {
        a[0] < b[0]
    } else {
        precedes(a.skip(1), b.skip(1))
    }
}

/// Of two texts that differ, one comes before the other.
pub proof fn lemma_precedes_total(a: Seq<char>, b: Seq<char>)
    ensures
        a == b || precedes(a, b) || precedes(b, a),
        !(precedes(a, b) && precedes(b, a)),
        !precedes(a, a),
    decreases a.len(),
{
    if a.len() > 0 && b.len() > 0 {
        if a[0] == b[0] {
            lemma_precedes_total(a.skip(1), b.skip(1));
            if a.skip(1) == b.skip(1) {
                assert(a =~= seq![a[0]] + a.skip(1));
                assert(b =~= seq![b[0]] + b.skip(1));
            }
        }
    } else if a.len() == 0 && b.len() == 0 {
        assert(a =~= b);
    }
    if a.len() > 0 {
        lemma_precedes_self(a);
    }
}

/// No text comes before itself.
pub proof fn lemma_precedes_self(a: Seq<char>)
    ensures
        !precedes(a, a),
    decreases a.len(),
{
    if a.len() > 0 {
        lemma_precedes_self(a.skip(1));
    }
}

/// What comes before a text comes before everything that the text comes
/// before.
pub proof fn lemma_precedes_transitive(a: Seq<char>, b: Seq<char>, c: Seq<char>)
    requires
        precedes(a, b),
        precedes(b, c),
    ensures
        precedes(a, c),
    decreases a.len(),
{
    if a.len() > 0 && b.len() > 0 && c.len() > 0 {
        if a[0] == b[0] && b[0] == c[0] {
            lemma_precedes_transitive(a.skip(1), b.skip(1), c.skip(1));
        }
    }
}

/// Whether the first text comes before the second.
pub fn text_precedes(a: &Vec<char>, b: &Vec<char>) -> (before: bool)
    ensures
        before == precedes(a@, b@),
{
    let mut i: usize = 0;
    proof {
        assert(a@.skip(0) == a@ && b@.skip(0) == b@);
    }
    while i < a.len() && i < b.len()
        invariant
            i <= a@.len(),
            i <= b@.len(),
            precedes(a@, b@) == precedes(a@.skip(i as int), b@.skip(i as int)),
        decreases a@.len() - i,
    {
        proof {
            let x = a@.skip(i as int);
            let y = b@.skip(i as int);
            assert(x[0] == a@[i as int] && y[0] == b@[i as int]);
            assert(x.skip(1) == a@.skip(i + 1));
            assert(y.skip(1) == b@.skip(i + 1));
        }
        if a[i] != b[i] {
            return a[i] < b[i];
        }
        i += 1;
    }
    i < b.len()
}

} // verus!
