use ostree_upgrader::revision::{RevisionData, parse_revision, read_revision_from_file,
    write_revision_to_file};

#[test]
fn default_from_path() {
    // An unreadable marker (the path names a directory) reads as the default.
    assert_eq!(read_revision_from_file(None), RevisionData::default());
}

#[test]
fn default_from_non_existing_file() {
    // A missing marker file reads as the default.
    assert_eq!(read_revision_from_file(None), RevisionData::default());
}

#[test]
fn default_to_and_from_non_existing_file() {
    let revision = RevisionData {
        current_rev: Some("abcde".to_string()),
        previous_rev: None,
    };
    let text = write_revision_to_file(&revision);
    assert_eq!(&read_revision_from_file(Some(&text)), &revision);
}

#[test]
fn default_from_garbage() {
    assert_eq!(
        read_revision_from_file(Some("not a marker at all")),
        RevisionData::default()
    );
    assert_eq!(read_revision_from_file(Some("")), RevisionData::default());
    assert_eq!(
        read_revision_from_file(Some("{\"current_rev\": \"unterminated")),
        RevisionData::default()
    );
}

#[test]
fn round_trip_both_fields() {
    let revision = RevisionData {
        current_rev: Some("0123abcd".to_string()),
        previous_rev: Some("fedc9876".to_string()),
    };
    let text = write_revision_to_file(&revision);
    assert_eq!(read_revision_from_file(Some(&text)), revision);
}

#[test]
fn round_trip_none_fields() {
    let revision = RevisionData {
        current_rev: None,
        previous_rev: None,
    };
    let text = write_revision_to_file(&revision);
    assert_eq!(read_revision_from_file(Some(&text)), revision);
}

#[test]
fn round_trip_escaped_characters() {
    let revision = RevisionData {
        current_rev: Some("quo\"te".to_string()),
        previous_rev: Some("back\\slash".to_string()),
    };
    let text = write_revision_to_file(&revision);
    assert_eq!(read_revision_from_file(Some(&text)), revision);
}

#[test]
fn round_trip_control_characters() {
    // Control characters are escaped on the way out and decoded on the way
    // back; the marker stays valid JSON throughout.
    let revision = RevisionData {
        current_rev: Some("a\nb\tc\rd".to_string()),
        previous_rev: Some("x\u{0001}y\u{0008}z\u{000C}w\u{001f}".to_string()),
    };
    let text = write_revision_to_file(&revision);
    assert_eq!(read_revision_from_file(Some(&text)), revision);
    let value: serde_json::Value = serde_json::from_str(&text).unwrap();
    assert_eq!(
        value["current_rev"],
        serde_json::Value::String("a\nb\tc\rd".to_string())
    );
    assert_eq!(
        value["previous_rev"],
        serde_json::Value::String("x\u{0001}y\u{0008}z\u{000C}w\u{001f}".to_string())
    );
}

#[test]
fn parse_decodes_standard_escapes() {
    let text = "{\n  \"current_rev\": \"a\\u0041\\n\\/\",\n  \"previous_rev\": null\n}";
    let parsed = parse_revision(text).unwrap();
    assert_eq!(parsed.current_rev, Some("aA\n/".to_string()));
}

#[test]
fn parse_rejects_unknown_escapes() {
    let text = "{\n  \"current_rev\": \"a\\q\",\n  \"previous_rev\": null\n}";
    assert!(parse_revision(text).is_none());
}

#[test]
fn marker_text_is_json() {
    // The marker must stay readable as ordinary JSON with the two fields.
    let revision = RevisionData {
        current_rev: Some("v2".to_string()),
        previous_rev: Some("v\"1\"".to_string()),
    };
    let text = write_revision_to_file(&revision);
    let value: serde_json::Value = serde_json::from_str(&text).unwrap();
    assert_eq!(value["current_rev"], serde_json::Value::String("v2".to_string()));
    assert_eq!(value["previous_rev"], serde_json::Value::String("v\"1\"".to_string()));
}

#[test]
fn marker_text_exact() {
    let revision = RevisionData {
        current_rev: Some("v2".to_string()),
        previous_rev: None,
    };
    let text = write_revision_to_file(&revision);
    assert_eq!(text, "{\n  \"current_rev\": \"v2\",\n  \"previous_rev\": null\n}");
}

#[test]
fn parse_tolerates_whitespace() {
    let text = " {  \"current_rev\" : \"aa\" ,\n \"previous_rev\" : null } ";
    let parsed = parse_revision(text).unwrap();
    assert_eq!(parsed.current_rev, Some("aa".to_string()));
    assert_eq!(parsed.previous_rev, None);
}

#[test]
fn parse_rejects_trailing_text() {
    assert!(parse_revision("{\n  \"current_rev\": null,\n  \"previous_rev\": null\n}x").is_none());
}
