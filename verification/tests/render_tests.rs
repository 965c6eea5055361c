use flactags::render::{render_line, render_lines, replace_field_in_string};
use flactags::TagError;
use metaflac::Tag;

fn tag_with(fields: &[(&str, &str)]) -> Tag {
    let mut tag = Tag::new();
    for (key, value) in fields {
        tag.set_vorbis(*key, vec![*value]);
    }
    tag
}

#[test]
fn render_basic_scenario() {
    let tag = tag_with(&[("ARTIST", "Muse"), ("TITLE", "Uprising")]);
    assert_eq!(render_line("%artist% - %title%", &tag).unwrap(), "Muse - Uprising");
}

#[test]
fn render_missing_field_becomes_none() {
    let tag = tag_with(&[("ARTIST", "Muse")]);
    assert_eq!(render_line("%artist% - %title%", &tag).unwrap(), "Muse - none");
}

#[test]
fn render_empty_tag_all_none() {
    let tag = Tag::new();
    assert_eq!(render_line("%artist% - %title%", &tag).unwrap(), "none - none");
}

#[test]
fn render_takes_first_of_multiple_values() {
    let mut tag = Tag::new();
    tag.set_vorbis("ARTIST", vec!["First", "Second"]);
    assert_eq!(render_line("%artist%", &tag).unwrap(), "First");
}

#[test]
fn render_looks_fields_up_by_uppercased_name() {
    let mut tag = Tag::new();
    tag.set_vorbis("ARTIST", vec!["Up"]);
    // `VorbisComment::set` stores the key exactly as given, so this entry
    // really is lower-case and must not be the one the renderer reads
    tag.vorbis_comments_mut().set("artist", vec!["Low"]);
    assert_eq!(render_line("%artist%", &tag).unwrap(), "Up");
}

#[test]
fn render_copies_literal_text_verbatim() {
    let tag = tag_with(&[("TRACKNUMBER", "3"), ("TITLE", "Go")]);
    assert_eq!(
        render_line("%tracknumber%. %title% (demo)", &tag).unwrap(),
        "3. Go (demo)"
    );
}

#[test]
fn render_value_is_not_reinterpreted() {
    let tag = tag_with(&[("ARTIST", "A.C+B (live)"), ("TITLE", "%title%")]);
    assert_eq!(
        render_line("%artist% - %title%", &tag).unwrap(),
        "A.C+B (live) - %title%"
    );
}

#[test]
fn render_duplicate_placeholder_repeats_value() {
    let tag = tag_with(&[("ARTIST", "Muse")]);
    assert_eq!(render_line("%artist%/%artist%", &tag).unwrap(), "Muse/Muse");
}

#[test]
fn replace_first_token_occurrence_only() {
    assert_eq!(
        replace_field_in_string("%artist% - %artist%".to_string(), "artist", "Muse"),
        "Muse - %artist%"
    );
}

#[test]
fn replace_value_is_inserted_literally() {
    assert_eq!(
        replace_field_in_string("%title%".to_string(), "title", "a$b\\c.+"),
        "a$b\\c.+"
    );
}

#[test]
fn replace_without_token_returns_string_unchanged() {
    assert_eq!(
        replace_field_in_string("plain text".to_string(), "artist", "x"),
        "plain text"
    );
    assert_eq!(replace_field_in_string("%art%".to_string(), "artist", "x"), "%art%");
}

#[test]
fn render_lines_one_per_tag_in_order() {
    let a = tag_with(&[("TITLE", "One")]);
    let b = tag_with(&[("TITLE", "Two")]);
    let lines = render_lines("%title%", &vec![a, b]).unwrap();
    assert_eq!(lines, vec!["One".to_string(), "Two".to_string()]);
}

#[test]
fn render_rejects_value_with_embedded_newline() {
    let tag = tag_with(&[("ARTIST", "Mu\nse"), ("TITLE", "Uprising")]);
    match render_line("%artist% - %title%", &tag) {
        Err(TagError::EmbeddedNewlineError) => {}
        other => panic!("expected EmbeddedNewlineError, got {:?}", other),
    }
}

#[test]
fn render_rejects_newline_in_format_literal() {
    let tag = tag_with(&[("ARTIST", "Muse")]);
    match render_line("%artist%\nsecond line", &tag) {
        Err(TagError::EmbeddedNewlineError) => {}
        other => panic!("expected EmbeddedNewlineError, got {:?}", other),
    }
}

#[test]
fn render_lines_reject_one_bad_record_among_good() {
    let good = tag_with(&[("TITLE", "One")]);
    let bad = tag_with(&[("TITLE", "Two\nlines")]);
    match render_lines("%title%", &vec![good, bad]) {
        Err(TagError::EmbeddedNewlineError) => {}
        other => panic!(
            "expected EmbeddedNewlineError, got {:?}",
            other.map(|_| ())
        ),
    }
}
