use llm_proxy::text::{
    contains_part, ends_with, find_char, insert_sorted, join, starts_with, strip_prefix,
    text_before, trim, trim_end_char,
};

#[test]
fn agrees_with_std() {
    let samples = [
        "", " ", "a", "  a b\t\n", "data: x", "\u{a0}ä\u{3000}", "///", "a/b/", "ab", "b", "aä",
    ];
    for a in samples {
        assert_eq!(trim(a), a.trim());
        assert_eq!(trim_end_char(a, '/'), a.trim_end_matches('/'));
        assert_eq!(
            find_char(a, 'b'),
            a.chars().position(|c| c == 'b').unwrap_or(a.chars().count())
        );
        for b in samples {
            assert_eq!(starts_with(a, b), a.starts_with(b));
            assert_eq!(ends_with(a, b), a.ends_with(b));
            assert_eq!(strip_prefix(a, b), a.strip_prefix(b));
            assert_eq!(contains_part(a, b), a.contains(b));
            assert_eq!(text_before(a, b), a < b);
        }
    }
}

#[test]
fn joins_with_a_separator() {
    let parts = |list: &[&str]| list.iter().map(|s| s.to_string()).collect::<Vec<_>>();
    assert_eq!(join(&parts(&[]), ", "), "");
    assert_eq!(join(&parts(&["a"]), ", "), "a");
    assert_eq!(join(&parts(&["a", "", "b"]), ", "), "a, , b");
}

#[test]
fn sorted_lists_stay_sorted() {
    let mut list = Vec::new();
    for s in ["c", "a", "b", "a", "", "c"] {
        insert_sorted(&mut list, s);
    }
    assert_eq!(list, vec!["", "a", "b", "c"]);
}
