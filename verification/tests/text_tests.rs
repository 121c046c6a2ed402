use clipboard_watcher::config::Config;
use clipboard_watcher::config::Replacement;
use clipboard_watcher::regex::Regex;
use clipboard_watcher::text::{
    chars_of, collapse_breaks, collapse_once, contains, has_newline, line_count, matches_at,
    replace_all, space, string_of, strip_nul, trim, truncate,
};
use clipboard_watcher::transform::{apply_rules, normalize, substitute};

fn cs(s: &str) -> Vec<char> {
    s.chars().collect()
}

fn st(v: Vec<char>) -> String {
    v.into_iter().collect()
}

#[test]
fn chars_and_back() {
    assert_eq!(chars_of("héllo"), vec!['h', 'é', 'l', 'l', 'o']);
    assert_eq!(string_of(&vec!['a', '\n', 'ß']), "a\nß");
    assert_eq!(chars_of(""), Vec::<char>::new());
}

#[test]
fn space_agrees_with_std() {
    let mut n: u32 = 0;
    while n <= 0x3100 {
        if let Some(c) = char::from_u32(n) {
            assert_eq!(space(c), c.is_whitespace(), "U+{:04X}", n);
        }
        n += 1;
    }
}

#[test]
fn strip_nul_removes_every_nul() {
    assert_eq!(st(strip_nul(&cs("a\0b\0\0"))), "ab");
    assert_eq!(st(strip_nul(&cs("\0"))), "");
    assert_eq!(st(strip_nul(&cs("plain"))), "plain");
}

#[test]
fn trim_agrees_with_std() {
    for s in ["  a b  ", "\n\tx", "x\u{3000}", "", "   ", "a", "\u{85}a\u{a0}b\u{2028}"] {
        assert_eq!(st(trim(&cs(s))), s.trim());
    }
}

#[test]
fn truncate_keeps_first_characters_of_trimmed_text() {
    assert_eq!(st(truncate(&cs("  hello world  "), 5)), "hello");
    assert_eq!(st(truncate(&cs("  hi  "), 5)), "hi");
    assert_eq!(st(truncate(&cs("héllo"), 2)), "hé");
    assert_eq!(st(truncate(&cs("abc"), 3)), "abc");
    assert_eq!(st(truncate(&cs("ab cd"), 3)), "ab ");
}

#[test]
fn contains_agrees_with_std() {
    let cases = [("hello world", "lo w"), ("hello", "hello!"), ("abc", ""), ("", ""), ("", "a"),
        ("aaab", "aab"), ("abc", "c"), ("abc", "d")];
    for (s, p) in cases {
        assert_eq!(contains(&cs(s), &cs(p)), s.contains(p), "{:?} in {:?}", p, s);
    }
}

#[test]
fn matches_at_checks_one_place() {
    assert!(matches_at(&cs("hello"), &cs("ll"), 2));
    assert!(!matches_at(&cs("hello"), &cs("ll"), 1));
    assert!(!matches_at(&cs("hello"), &cs("lo"), 4));
    assert!(matches_at(&cs("hello"), &cs(""), 5));
    assert!(!matches_at(&cs("hello"), &cs(""), 6));
}

#[test]
fn replace_all_agrees_with_std() {
    let cases = [("aaaa", "aa", "b"), ("abc", "", "-"), ("", "", "-"), ("hello", "l", "LL"),
        ("abab", "ab", ""), ("abc", "abcd", "x"), ("aXbXc", "X", "X")];
    for (s, from, to) in cases {
        assert_eq!(st(replace_all(&cs(s), &cs(from), &cs(to))), s.replace(from, to));
    }
    assert_eq!(st(replace_all(&cs("abc"), &cs(""), &cs("-"))), "-a-b-c-");
}

#[test]
fn collapse_replaces_break_spans_by_one_space() {
    assert_eq!(st(collapse_once(&cs("a\nb"))), "a b");
    assert_eq!(st(collapse_once(&cs("a\n\n\n b"))), "a b");
    assert_eq!(st(collapse_once(&cs("a\n\n\n  b"))), "a  b");
    assert_eq!(st(collapse_once(&cs("a\n\tb\n"))), "a b ");
    assert_eq!(st(collapse_once(&cs("\n"))), " ");
    assert_eq!(st(collapse_once(&cs("a\n \nb"))), "a  b");
    assert_eq!(st(collapse_once(&cs("no break"))), "no break");
}

#[test]
fn collapse_breaks_reaches_a_fixed_point() {
    for s in ["a\n\n\n  b", "\n\n", "a\n \n \nb", "x", "", "a\r\nb"] {
        let once = collapse_breaks(cs(s));
        assert!(!has_newline(&once));
        assert!(!once.contains(&'\n'));
        assert_eq!(collapse_breaks(once.clone()), once);
        assert_eq!(collapse_once(&cs(s)), once);
    }
}

#[test]
fn normalization_fixed_point() {
    let config = Config::default();
    assert_eq!(normalize(&config, "a\n\n\n b"), "a b");
    let out = normalize(&config, "a\n\n\n  b");
    assert_eq!(out, "a  b");
    assert!(!out.contains('\n'));
    assert_eq!(normalize(&config, &out), out);
}

#[test]
fn normalize_strips_nul_before_collapsing() {
    let config = Config::default();
    assert_eq!(normalize(&config, "a\n\0\nb\0\0"), "a b");
    assert_eq!(normalize(&config, ""), "");
}

#[test]
fn normalize_applies_literal_rules_in_order_then_regex_rules() {
    let mut config = Config::default();
    config.replace.push(Replacement { pattern: "a".to_string(), replacement: "b".to_string() });
    config.replace.push(Replacement { pattern: "bb".to_string(), replacement: "c".to_string() });
    assert_eq!(normalize(&config, "ab\nab"), "c c");
    config.regex.push(Regex::new(" +", "").unwrap());
    assert_eq!(normalize(&config, "ab\nab"), "cc");
}

#[test]
fn substitute_passes_each_rule_once() {
    let rules = vec![
        Replacement { pattern: "u".to_string(), replacement: "uu".to_string() },
        Replacement { pattern: "uu".to_string(), replacement: "y".to_string() },
    ];
    assert_eq!(st(substitute(cs("u-uuu"), &rules)), "y-yyy");
    assert_eq!(st(substitute(cs("abc"), &Vec::new())), "abc");
}

#[test]
fn apply_rules_settles_each_rule() {
    let rules = vec![Regex::new("aa", "a").unwrap(), Regex::new("a", "b").unwrap()];
    assert_eq!(apply_rules("aaaa-aa".to_string(), &rules), "b-b");
}

#[test]
fn line_count_counts_as_lines_do() {
    for s in ["", "a", "a\n", "a\nb", "\n", "\n\n", "a\n\nb\n"] {
        assert_eq!(line_count(s), s.lines().count(), "{:?}", s);
    }
    assert_eq!(line_count("\n\nx\n\ny"), 5);
}

#[test]
fn normalize_leaves_no_line_break_with_plain_substitutions() {
    let mut config = Config::default();
    config.replace.push(Replacement { pattern: "a".to_string(), replacement: "b c".to_string() });
    config.replace.push(Replacement { pattern: " ".to_string(), replacement: "  ".to_string() });
    config.replace.push(Replacement { pattern: "".to_string(), replacement: "-".to_string() });
    for s in ["a\n\n\n  b", "\n", "a\na\n", "", "\0\n\0"] {
        let out = normalize(&config, s);
        assert!(!out.contains('\n'), "{:?}", out);
        assert_eq!(st(collapse_once(&cs(&out))), out);
    }
    assert_eq!(normalize(&config, "a\nb"), "-b- - -c- - -b-");
}

#[test]
fn substitution_can_bring_a_line_break_back() {
    let mut config = Config::default();
    config.replace.push(Replacement { pattern: ";".to_string(), replacement: "\n".to_string() });
    assert_eq!(normalize(&config, "a\nb;c"), "a b\nc");
}
