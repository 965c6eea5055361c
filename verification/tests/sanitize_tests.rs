use flactags::sanitize::sanitize_for_regex;
use regex::Regex;

const META: [char; 14] = [
    '\\', '.', '+', '*', '?', '(', ')', '|', '{', '}', '[', ']', '^', '$',
];

#[test]
fn sanitize_identity_on_plain_text() {
    let s = "Muse - Uprising";
    assert_eq!(sanitize_for_regex(s), s);
}

#[test]
fn sanitize_identity_on_placeholder_delimiters() {
    let s = "%artist% - %title%";
    assert_eq!(sanitize_for_regex(s), s);
}

#[test]
fn sanitize_escapes_each_metacharacter() {
    for c in META {
        let out = sanitize_for_regex(&c.to_string());
        assert_eq!(out.chars().count(), 2);
        let mut chars = out.chars();
        assert_eq!(chars.next(), Some('\\'));
        assert_eq!(chars.next(), Some(c));
    }
}

#[test]
fn sanitized_metacharacter_matches_itself_literally() {
    for c in META {
        let text = c.to_string();
        let pattern = format!("^{}$", sanitize_for_regex(&text));
        let re = Regex::new(&pattern).unwrap();
        assert!(re.is_match(&text));
        if c != '.' {
            assert!(!re.is_match("x"));
        }
    }
}

#[test]
fn sanitize_mixed_text() {
    assert_eq!(sanitize_for_regex("a.b(c)"), "a\\.b\\(c\\)");
    assert_eq!(sanitize_for_regex("[x]+|{y}*"), "\\[x\\]\\+\\|\\{y\\}\\*");
}

#[test]
fn sanitized_text_matches_original_literally() {
    let text = "Best of (CD 2) [remastered] 100%";
    let pattern = format!("^{}$", sanitize_for_regex(text));
    let re = Regex::new(&pattern).unwrap();
    assert!(re.is_match(text));
    assert!(!re.is_match("Best of (CD 2) [remastered] 100x"));
}
