use dispatch::order::stable_sort_order;
use dispatch::text::{char_count, fill_template, i64_to_decimal, str_chars, string_from_chars};

#[test]
fn fill_template_fills_in_one_pass() {
    assert_eq!(fill_template("{label}:{count}", "{label}", "all:All", "{count}", "71"), "all:All:71");
    assert_eq!(fill_template("{count}{label}", "{label}", "{count}", "{count}", "5"), "5{count}");
    assert_eq!(fill_template("a{b}{b}c", "{b}", "X", "{c}", "Y"), "aXXc");
    assert_eq!(fill_template("{lab", "{label}", "X", "{count}", "Y"), "{lab");
    assert_eq!(fill_template("", "{label}", "X", "{count}", "Y"), "");
    assert_eq!(fill_template("äö{label}ü", "{label}", "é", "", "ignored"), "äöéü");
}

#[test]
fn char_count_counts_characters() {
    assert_eq!(char_count("[A] é"), 5);
    assert_eq!(char_count(""), 0);
}

#[test]
fn decimal_matches_to_string() {
    for n in [0i64, 7, 10, 49, 100, 123456789, -1, -42, i64::MAX, i64::MIN] {
        assert_eq!(i64_to_decimal(n), n.to_string());
    }
}

#[test]
fn chars_round_trip() {
    let s = "Ticker ███ ünïcode";
    let chars = str_chars(s);
    assert_eq!(chars, s.chars().collect::<Vec<char>>());
    assert_eq!(string_from_chars(&chars), s);
}

#[test]
fn stable_sort_order_keeps_ties() {
    let keys = vec![(1, 0), (0, 5), (1, 0), (0, 1), (-3, 9)];
    assert_eq!(stable_sort_order(&keys), vec![4, 3, 1, 0, 2]);
    assert_eq!(stable_sort_order(&vec![]), Vec::<usize>::new());
}
