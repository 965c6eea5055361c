use flactags::template::{get_format_tags, is_supported_tags};

#[test]
fn extract_order_and_duplicates() {
    let tags = get_format_tags("%artist% - %title% (%artist%)");
    assert_eq!(tags, vec!["artist".to_string(), "title".to_string(), "artist".to_string()]);
}

#[test]
fn extract_simple_pair() {
    let tags = get_format_tags("%artist% - %title%");
    assert_eq!(tags, vec!["artist".to_string(), "title".to_string()]);
}

#[test]
fn extract_no_placeholders() {
    let tags = get_format_tags("plain text without tokens");
    assert!(tags.is_empty());
}

#[test]
fn extract_ignores_malformed_tokens() {
    assert!(get_format_tags("%unclosed").is_empty());
    assert!(get_format_tags("%%").is_empty());
    assert!(get_format_tags("%a1%").is_empty());
    assert_eq!(get_format_tags("%%artist%"), vec!["artist".to_string()]);
}

#[test]
fn extract_adjacent_placeholders() {
    let tags = get_format_tags("%artist%%title%");
    assert_eq!(tags, vec!["artist".to_string(), "title".to_string()]);
}

#[test]
fn supported_all_vocabulary_fields() {
    let format = "%artist%%title%%album%%albumartist%%tracknumber%%discnumber%%genre%%date%%comment%";
    assert!(is_supported_tags(format));
}

#[test]
fn supported_plain_text_only() {
    assert!(is_supported_tags("no placeholders at all"));
}

#[test]
fn unsupported_composer_placeholder() {
    assert!(!is_supported_tags("%composer% - %title%"));
}

#[test]
fn unsupported_is_case_sensitive() {
    assert!(!is_supported_tags("%Artist%"));
}

#[test]
fn unsupported_one_bad_among_good() {
    assert!(!is_supported_tags("%artist% - %title% - %foo%"));
}
