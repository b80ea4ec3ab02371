use dsondt::text::{
    chars_of, concat_strs, contains_chars, ends_with, push_signed_decimal, replace_chars, split_lines,
    starts_with, str_eq, strip_prefixes_chars, trim_chars,
};

fn chars(s: &str) -> Vec<char> {
    s.chars().collect()
}

fn text(v: &[char]) -> String {
    v.iter().collect()
}

#[test]
fn trim_matches_std() {
    for s in ["  a b \t", "\u{3000}中文\u{a0}", "", "   ", "x"] {
        assert_eq!(text(&trim_chars(&chars(s))), s.trim());
    }
}

#[test]
fn lines_match_std() {
    for s in ["a\nb", "a\r\nb\n", "", "\n", "\n\n", "x\r", "a\n\nb"] {
        let got: Vec<String> = split_lines(s).iter().map(|l| text(l)).collect();
        let want: Vec<String> = s.lines().map(|l| l.to_string()).collect();
        assert_eq!(got, want, "input {s:?}");
    }
}

#[test]
fn replace_matches_std() {
    for (s, p, r) in [("aaaa", "aa", "b"), ("xax", "a", ""), ("abc", "zz", "q"), ("abab", "ab", "abab")] {
        assert_eq!(text(&replace_chars(&chars(s), &chars(p), &chars(r))), s.replace(p, r));
    }
}

#[test]
fn prefix_helpers() {
    assert!(starts_with(&chars("data: x"), &chars("data:")));
    assert!(ends_with(&chars("A.dmg"), &chars(".dmg")));
    assert!(!ends_with(&chars("dmg"), &chars(".dmg")));
    assert!(contains_chars(&chars("tauri.localhost"), &chars("localhost")));
    assert!(!contains_chars(&chars("local"), &chars("localhost")));
    assert_eq!(text(&strip_prefixes_chars(&chars("vvv1"), &chars("v"))), "1");
    assert!(str_eq("新对话", "新对话"));
    assert_eq!(concat_strs("ab", "cd"), "abcd");
    assert_eq!(chars_of("猫"), vec!['猫']);
}

#[test]
fn decimals() {
    for n in [0i64, 7, 10, -1, 1234567890123, i64::MAX, i64::MIN] {
        let mut out = Vec::new();
        push_signed_decimal(&mut out, n);
        assert_eq!(text(&out), n.to_string());
    }
}
