use forge_commerce::text::{
    contains_chars, decimal, escape_html, format_price, parse_amount, parse_offer_amount,
    round_to_dollars, text_precedes, time_ago_at, to_chars, trim,
};

#[test]
fn test_format_price() {
    assert_eq!(format_price(2990), "$29.90");
    assert_eq!(format_price(10000), "$100.00");
    assert_eq!(format_price(50), "$0.50");
}

#[test]
fn prices_at_the_edges() {
    assert_eq!(format_price(0), "$0.00");
    assert_eq!(format_price(5), "$0.05");
    assert_eq!(format_price(u64::MAX), "$184467440737095516.15");
}

#[test]
fn numbers_in_decimal() {
    assert_eq!(decimal(0), "0");
    assert_eq!(decimal(9), "9");
    assert_eq!(decimal(10), "10");
    assert_eq!(decimal(1234567890), "1234567890");
    assert_eq!(decimal(u64::MAX), "18446744073709551615");
}

#[test]
fn trimming_takes_whitespace_off_both_ends() {
    assert_eq!(trim("  hello world \n"), "hello world");
    assert_eq!(trim("hello"), "hello");
    assert_eq!(trim(""), "");
    assert_eq!(trim(" \t\r\n "), "");
    assert_eq!(trim("\u{2003}caf\u{e9}\u{a0}"), "caf\u{e9}");
    assert_eq!(trim(" a b "), "a b");
}

#[test]
fn amounts_are_read_in_cents() {
    assert_eq!(parse_amount("80"), Some(8_000));
    assert_eq!(parse_amount("80.5"), Some(8_050));
    assert_eq!(parse_amount("80.05"), Some(8_005));
    assert_eq!(parse_amount("80."), Some(8_000));
    assert_eq!(parse_amount(".5"), Some(50));
    assert_eq!(parse_amount("0"), Some(0));
    assert_eq!(parse_amount("0012.349"), Some(1_234));
    assert_eq!(parse_amount("19.99"), Some(1_999));
}

#[test]
fn what_is_no_amount_is_not_read() {
    assert_eq!(parse_amount(""), None);
    assert_eq!(parse_amount("."), None);
    assert_eq!(parse_amount("abc"), None);
    assert_eq!(parse_amount("-5"), None);
    assert_eq!(parse_amount(" 5"), None);
    assert_eq!(parse_amount("1.2.3"), None);
    assert_eq!(parse_amount("12a"), None);
    assert_eq!(parse_amount("1,000"), None);
}

#[test]
fn amounts_that_do_not_fit_are_not_read() {
    assert_eq!(parse_amount("184467440737095516.15"), Some(u64::MAX));
    assert_eq!(parse_amount("184467440737095516.16"), None);
    assert_eq!(parse_amount("184467440737095517"), None);
    assert_eq!(parse_amount("99999999999999999999999999"), None);
}

#[test]
fn offers_may_carry_dollar_signs_and_commas() {
    assert_eq!(parse_offer_amount("$80"), 8_000);
    assert_eq!(parse_offer_amount("$1,250.50"), 125_050);
    assert_eq!(parse_offer_amount("90"), 9_000);
    assert_eq!(parse_offer_amount("free"), 0);
    assert_eq!(parse_offer_amount(""), 0);
    assert_eq!(parse_offer_amount("-3"), 0);
    assert_eq!(parse_offer_amount("$,"), 0);
}

#[test]
fn whole_dollars_round_to_the_nearest_and_halves_to_even() {
    assert_eq!(round_to_dollars(8_500), 85);
    assert_eq!(round_to_dollars(8_549), 85);
    assert_eq!(round_to_dollars(8_550), 86);
    assert_eq!(round_to_dollars(8_450), 84);
    assert_eq!(round_to_dollars(8_451), 85);
    assert_eq!(round_to_dollars(50), 0);
    assert_eq!(round_to_dollars(150), 2);
    assert_eq!(round_to_dollars(u64::MAX), 184467440737095516);
}

#[test]
fn ages_in_words() {
    let now = 1_000_000;
    assert_eq!(time_ago_at(now, now), "just now");
    assert_eq!(time_ago_at(now, now - 59), "just now");
    assert_eq!(time_ago_at(now, now + 500), "just now");
    assert_eq!(time_ago_at(now, now - 60), "1m ago");
    assert_eq!(time_ago_at(now, now - 3_599), "59m ago");
    assert_eq!(time_ago_at(now, now - 3_600), "1h ago");
    assert_eq!(time_ago_at(now, now - 86_399), "23h ago");
    assert_eq!(time_ago_at(now, now - 86_400), "1d ago");
    assert_eq!(time_ago_at(now, now - 6 * 86_400), "6d ago");
    assert_eq!(time_ago_at(now, now - 7 * 86_400), "1w ago");
    assert_eq!(time_ago_at(now, now - 29 * 86_400), "4w ago");
    assert_eq!(time_ago_at(now, now - 30 * 86_400), "1mo ago");
    assert_eq!(time_ago_at(now, now - 365 * 86_400), "12mo ago");
    assert_eq!(time_ago_at(i64::MAX, i64::MIN), "7116799411153mo ago");
    assert_eq!(time_ago_at(i64::MIN, i64::MAX), "just now");
}

#[test]
fn html_is_escaped() {
    assert_eq!(escape_html("Tom & Jerry"), "Tom &amp; Jerry");
    assert_eq!(
        escape_html("<a href=\"/x\">it's</a>"),
        "&lt;a href=&quot;&#x2F;x&quot;&gt;it&#x27;s&lt;&#x2F;a&gt;"
    );
    assert_eq!(escape_html(""), "");
    assert_eq!(escape_html("plain \u{1F4B0}"), "plain \u{1F4B0}");
}

#[test]
fn searching_ignores_the_case_of_ascii_letters() {
    let text = to_chars("Vintage Le Creuset Dutch Oven");
    assert!(contains_chars(&text, &to_chars("dutch")));
    assert!(contains_chars(&text, &to_chars("OVEN")));
    assert!(contains_chars(&text, &to_chars("Vintage")));
    assert!(contains_chars(&text, &to_chars("")));
    assert!(!contains_chars(&text, &to_chars("ovens")));
    assert!(!contains_chars(&to_chars(""), &to_chars("a")));
    assert!(contains_chars(&to_chars(""), &to_chars("")));
    assert!(!contains_chars(&to_chars("\u{c9}t\u{e9}"), &to_chars("\u{e9}t\u{e9}")));
}

#[test]
fn texts_are_ordered_as_in_a_dictionary() {
    let less = |a: &str, b: &str| text_precedes(&to_chars(a), &to_chars(b));
    assert!(less("Alpha", "Beta"));
    assert!(!less("Beta", "Alpha"));
    assert!(less("Alpha", "Alphabet"));
    assert!(!less("Alpha", "Alpha"));
    assert!(less("", "a"));
    assert!(!less("", ""));
    assert!(less("Zeta", "alpha"));
    assert!(less("a", "\u{e9}"));
}

#[test]
fn characters_come_one_by_one() {
    assert_eq!(to_chars("a\u{e9}\u{1F4B0}"), vec!['a', '\u{e9}', '\u{1F4B0}']);
    assert!(to_chars("").is_empty());
}
