use soccer_tool::text::{
    ends_with, insert_sorted, insert_unique_sorted, join, lines, parse_u32, same_strings,
    sort_strings, str_less, trim, trim_end,
};

fn strings(v: &[&str]) -> Vec<String> {
    v.iter().map(|s| s.to_string()).collect()
}

#[test]
fn trim_removes_unicode_whitespace_on_both_sides() {
    assert_eq!(trim("  \t{\"a\":1}\r\n"), "{\"a\":1}");
    assert_eq!(trim("\u{3000}x y\u{2009}"), "x y");
    assert_eq!(trim("   "), "");
    assert_eq!(trim(""), "");
}

#[test]
fn trim_end_keeps_leading_whitespace() {
    assert_eq!(trim_end("  abc \r\n"), "  abc");
    assert_eq!(trim_end("abc"), "abc");
    assert_eq!(trim_end("\n\n"), "");
}

#[test]
fn lines_split_like_str_lines() {
    let cases = ["", "a", "a\n", "a\n\n", "\n", "a\r\nb", "a\rb\n", "foo\nbar\n\r\nbaz\r", "x\r"];
    for c in cases {
        let expected: Vec<String> = c.lines().map(|s| s.to_string()).collect();
        assert_eq!(lines(c), expected, "case {:?}", c);
    }
}

#[test]
fn join_puts_separator_between_parts() {
    assert_eq!(join(&strings(&[]), "\n"), "");
    assert_eq!(join(&strings(&["a"]), "\n"), "a");
    assert_eq!(join(&strings(&["a", "b", "c"]), ", "), "a, b, c");
}

#[test]
fn str_less_is_code_point_order() {
    assert!(str_less("abc", "abd"));
    assert!(str_less("ab", "abc"));
    assert!(!str_less("abc", "abc"));
    assert!(!str_less("b", "abc"));
    assert!(str_less("Z", "a"));
    assert!(str_less("", "a"));
    assert_eq!(str_less("é", "z"), "é" < "z");
}

#[test]
fn insert_unique_sorted_behaves_like_a_set() {
    let mut v = Vec::new();
    for s in ["b", "a", "c", "a", "b"] {
        insert_unique_sorted(&mut v, s.to_string());
    }
    assert_eq!(v, strings(&["a", "b", "c"]));
}

#[test]
fn insert_sorted_keeps_duplicates() {
    let mut v = Vec::new();
    for s in ["b", "a", "b"] {
        insert_sorted(&mut v, s.to_string());
    }
    assert_eq!(v, strings(&["a", "b", "b"]));
}

#[test]
fn sort_strings_matches_std_sort() {
    let input = strings(&["run_2.json", "a.json", "Z.json", "run_10.json", "a.json"]);
    let mut expected = input.clone();
    expected.sort();
    assert_eq!(sort_strings(input), expected);
}

#[test]
fn ends_with_checks_suffix() {
    assert!(ends_with("log.json", ".json"));
    assert!(ends_with(".json", ".json"));
    assert!(!ends_with("json", ".json"));
    assert!(!ends_with("log.jsonx", ".json"));
}

#[test]
fn parse_u32_matches_std_parse() {
    let cases = [
        "0", "115200", "+9600", "+", "", "-1", "12a", " 1", "4294967295", "4294967296",
        "99999999999999999999", "007",
    ];
    for c in cases {
        assert_eq!(parse_u32(c), c.parse::<u32>().ok(), "case {:?}", c);
    }
    assert_eq!(parse_u32("+9600"), Some(9600));
}

#[test]
fn same_strings_compares_in_order() {
    assert!(same_strings(&strings(&["a", "b"]), &strings(&["a", "b"])));
    assert!(!same_strings(&strings(&["a", "b"]), &strings(&["b", "a"])));
    assert!(!same_strings(&strings(&["a"]), &strings(&["a", "b"])));
}
