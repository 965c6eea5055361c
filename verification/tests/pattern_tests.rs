use flactags::pattern::{build_input_specifier, match_line};
use flactags::template::get_format_tags;
use regex::Regex;

#[test]
fn build_specifier_basic() {
    let format = "%artist% - %title%";
    let tags = get_format_tags(format);
    assert_eq!(
        build_input_specifier(format, &tags),
        "(?P<artist>.+) - (?P<title>.+)"
    );
}

#[test]
fn build_specifier_escapes_literals() {
    let format = "%artist% (live).%title%";
    let tags = get_format_tags(format);
    assert_eq!(
        build_input_specifier(format, &tags),
        "(?P<artist>.+) \\(live\\)\\.(?P<title>.+)"
    );
}

#[test]
fn build_specifier_compiles_and_captures() {
    let format = "%artist% - %title%";
    let tags = get_format_tags(format);
    let pattern = format!("^{}$", build_input_specifier(format, &tags));
    let re = Regex::new(&pattern).unwrap();
    let caps = re.captures("Muse - Uprising").unwrap();
    assert_eq!(&caps["artist"], "Muse");
    assert_eq!(&caps["title"], "Uprising");
}

#[test]
fn match_line_basic() {
    let vals = match_line("%artist% - %title%", "Muse - Uprising").unwrap();
    assert_eq!(vals, vec!["Muse".to_string(), "Uprising".to_string()]);
}

#[test]
fn match_line_rejects_wrong_shape() {
    assert!(match_line("%artist% - %title%", "NoSeparatorHere").is_none());
    assert!(match_line("%artist% - %title%", " - Uprising").is_none());
    assert!(match_line("%artist% - %title%", "Muse - ").is_none());
}

#[test]
fn match_line_literal_text_must_match() {
    assert!(match_line("x%artist%", "yMuse").is_none());
    let vals = match_line("x%artist%", "xMuse").unwrap();
    assert_eq!(vals, vec!["Muse".to_string()]);
}

#[test]
fn match_line_is_greedy_like_the_pattern_engine() {
    let format = "%album%-%title%";
    let line = "x-y-z";
    let vals = match_line(format, line).unwrap();
    assert_eq!(vals, vec!["x-y".to_string(), "z".to_string()]);

    let tags = get_format_tags(format);
    let pattern = format!("^{}$", build_input_specifier(format, &tags));
    let re = Regex::new(&pattern).unwrap();
    let caps = re.captures(line).unwrap();
    assert_eq!(&caps["album"], vals[0].as_str());
    assert_eq!(&caps["title"], vals[1].as_str());
}

#[test]
fn match_line_adjacent_placeholders_resolved_greedily() {
    let format = "%artist%%title%";
    let line = "abc";
    let vals = match_line(format, line).unwrap();
    assert_eq!(vals, vec!["ab".to_string(), "c".to_string()]);

    let tags = get_format_tags(format);
    let pattern = format!("^{}$", build_input_specifier(format, &tags));
    let re = Regex::new(&pattern).unwrap();
    let caps = re.captures(line).unwrap();
    assert_eq!(&caps["artist"], vals[0].as_str());
    assert_eq!(&caps["title"], vals[1].as_str());
}

#[test]
fn match_line_whole_line_only() {
    assert!(match_line("%artist%!", "Muse!extra").is_none());
}
