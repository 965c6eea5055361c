use flactags::TagError;
use flactags::changes::{
    create_changes, decide_action, make_changes, print_changes, ChangeAction, Changes,
};
use metaflac::Tag;

fn first_value(tag: &Tag, key: &str) -> Option<String> {
    tag.vorbis_comments()
        .and_then(|c| c.get(key))
        .and_then(|vals| vals.first())
        .cloned()
}

#[test]
fn decide_set_remove_keep() {
    assert_eq!(decide_action("none", "Artist X"), ChangeAction::SetValue);
    assert_eq!(decide_action("Artist X", "none"), ChangeAction::RemoveField);
    assert_eq!(decide_action("Artist X", "Artist X"), ChangeAction::KeepField);
    assert_eq!(decide_action("none", "none"), ChangeAction::KeepField);
    assert_eq!(decide_action("old", "new"), ChangeAction::SetValue);
}

#[test]
fn apply_sets_new_field() {
    let mut tag = Tag::new();
    let mut c = Changes::new("a.flac".to_string());
    c.add_change("ARTIST", "Muse");
    c.make_changes(&mut tag);
    assert_eq!(first_value(&tag, "ARTIST"), Some("Muse".to_string()));
}

#[test]
fn apply_replaces_differing_field() {
    let mut tag = Tag::new();
    tag.set_vorbis("ARTIST", vec!["Old"]);
    let mut c = Changes::new("a.flac".to_string());
    c.add_change("ARTIST", "New");
    c.make_changes(&mut tag);
    assert_eq!(first_value(&tag, "ARTIST"), Some("New".to_string()));
}

#[test]
fn apply_removes_field_on_none() {
    let mut tag = Tag::new();
    tag.set_vorbis("ARTIST", vec!["Muse"]);
    let mut c = Changes::new("a.flac".to_string());
    c.add_change("ARTIST", "none");
    c.make_changes(&mut tag);
    assert_eq!(first_value(&tag, "ARTIST"), None);
}

#[test]
fn apply_keeps_equal_field_untouched() {
    let mut tag = Tag::new();
    tag.set_vorbis("ARTIST", vec!["Muse", "Second"]);
    let mut c = Changes::new("a.flac".to_string());
    c.add_change("ARTIST", "Muse");
    c.make_changes(&mut tag);
    // a kept field is not rewritten, so the second value survives
    let values = tag.vorbis_comments().unwrap().get("ARTIST").unwrap().clone();
    assert_eq!(values, vec!["Muse".to_string(), "Second".to_string()]);
}

#[test]
fn apply_absent_field_to_none_is_noop() {
    let mut tag = Tag::new();
    let mut c = Changes::new("a.flac".to_string());
    c.add_change("ARTIST", "none");
    c.make_changes(&mut tag);
    assert_eq!(first_value(&tag, "ARTIST"), None);
}

#[test]
fn create_changes_extracts_uppercased_fields() {
    let paths = vec!["a.flac".to_string()];
    let lines = vec!["Muse - Uprising".to_string()];
    let cs = create_changes(&paths, "%artist% - %title%", &lines).unwrap();
    assert_eq!(cs.len(), 1);
    assert_eq!(cs[0].path_to_file, "a.flac");
    assert_eq!(cs[0].fields, vec!["ARTIST".to_string(), "TITLE".to_string()]);
    assert_eq!(cs[0].values, vec!["Muse".to_string(), "Uprising".to_string()]);
}

#[test]
fn create_changes_count_mismatch_is_alignment_error() {
    let paths = vec!["a.flac".to_string(), "b.flac".to_string(), "c.flac".to_string()];
    let lines = vec!["x - y".to_string(), "z - w".to_string()];
    match create_changes(&paths, "%artist% - %title%", &lines) {
        Err(TagError::AlignmentError) => {}
        other => panic!("expected AlignmentError, got {:?}", other.map(|_| ())),
    }
}

#[test]
fn alignment_error_modifies_no_record() {
    let mut tags = vec![Tag::new(), Tag::new()];
    tags[0].set_vorbis("ARTIST", vec!["Keep"]);
    let mut c = Changes::new("a.flac".to_string());
    c.add_change("ARTIST", "Changed");
    let changes = vec![c];
    match make_changes(&changes, &mut tags) {
        Err(TagError::AlignmentError) => {}
        other => panic!("expected AlignmentError, got {:?}", other),
    }
    assert_eq!(first_value(&tags[0], "ARTIST"), Some("Keep".to_string()));
    assert_eq!(first_value(&tags[1], "ARTIST"), None);
}

#[test]
fn create_changes_unmatched_line_is_pattern_error() {
    let paths = vec!["a.flac".to_string()];
    let lines = vec!["no separator".to_string()];
    match create_changes(&paths, "%artist% - %title%", &lines) {
        Err(TagError::PatternMatchError) => {}
        other => panic!("expected PatternMatchError, got {:?}", other.map(|_| ())),
    }
}

#[test]
fn make_changes_applies_each_record() {
    let mut tags = vec![Tag::new(), Tag::new()];
    tags[1].set_vorbis("TITLE", vec!["Old"]);
    let mut c0 = Changes::new("a.flac".to_string());
    c0.add_change("TITLE", "One");
    let mut c1 = Changes::new("b.flac".to_string());
    c1.add_change("TITLE", "none");
    let changes = vec![c0, c1];
    make_changes(&changes, &mut tags).unwrap();
    assert_eq!(first_value(&tags[0], "TITLE"), Some("One".to_string()));
    assert_eq!(first_value(&tags[1], "TITLE"), None);
}

#[test]
fn print_changes_reports_set_and_remove() {
    let mut tag = Tag::new();
    tag.set_vorbis("ARTIST", vec!["Muse"]);
    let mut c = Changes::new("a.flac".to_string());
    c.add_change("ARTIST", "Queen");
    c.add_change("TITLE", "Uprising");
    c.add_change("ALBUM", "none");
    let report = c.print_changes(&tag);
    assert_eq!(
        report,
        "field: ARTIST, old: Muse, new: Queen\n\
         field: TITLE, old: none, new: Uprising\n"
    );
}

#[test]
fn print_changes_silent_when_nothing_changes() {
    let mut tag = Tag::new();
    tag.set_vorbis("ARTIST", vec!["Muse"]);
    let mut c = Changes::new("a.flac".to_string());
    c.add_change("ARTIST", "Muse");
    assert_eq!(c.print_changes(&tag), "");
}

#[test]
fn print_changes_reports_removal_line() {
    let mut tag = Tag::new();
    tag.set_vorbis("GENRE", vec!["Rock"]);
    let mut c = Changes::new("a.flac".to_string());
    c.add_change("GENRE", "none");
    assert_eq!(c.print_changes(&tag), "removing field: GENRE, old value: Rock\n");
}

#[test]
fn print_changes_mismatch_is_alignment_error() {
    let tags = vec![Tag::new()];
    let changes: Vec<Changes> = Vec::new();
    match print_changes(&changes, &tags) {
        Err(TagError::AlignmentError) => {}
        other => panic!("expected AlignmentError, got {:?}", other.map(|_| ())),
    }
}

#[test]
fn print_changes_one_report_per_record() {
    let mut tag0 = Tag::new();
    tag0.set_vorbis("ARTIST", vec!["A"]);
    let tags = vec![tag0, Tag::new()];
    let mut c0 = Changes::new("a.flac".to_string());
    c0.add_change("ARTIST", "B");
    let mut c1 = Changes::new("b.flac".to_string());
    c1.add_change("ARTIST", "none");
    let reports = print_changes(&vec![c0, c1], &tags).unwrap();
    assert_eq!(reports.len(), 2);
    assert_eq!(reports[0], "field: ARTIST, old: A, new: B\n");
    assert_eq!(reports[1], "");
}

#[test]
fn error_messages_describe_the_failure() {
    assert_eq!(
        TagError::AlignmentError.message(),
        "record count and line count differ"
    );
    assert_eq!(
        TagError::PatternMatchError.message(),
        "a line does not match the format specifier"
    );
    assert_eq!(TagError::IoError("boom".to_string()).message(), "boom");
    assert_eq!(TagError::MetaflacError("bad block".to_string()).message(), "bad block");
    assert_eq!(
        TagError::UnsupportedFieldError.message(),
        "unsupported tags in format specifier"
    );
    assert_eq!(
        TagError::EmbeddedNewlineError.message(),
        "a field value would embed a newline in a rendered line"
    );
}
