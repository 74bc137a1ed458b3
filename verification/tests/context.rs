use tfmttools::context::{
    construct_target_path, classify_field, coerce_output_value, date_value, parse_number_with_optional_total,
    parse_usize, tag_lookup, tag_value, FieldRequest, OutputValue, TagKind, Warning,
};

#[test]
fn warning_variants_are_constructible() {
    let _ = Warning::WhitespaceInTag {
        file: "song.mp3".to_owned(),
        tag_name: "track_artist".to_owned(),
    };
    let _ = Warning::DeprecatedPositionalArgs { template: "my_template".to_owned() };
    let _ = Warning::DeprecatedLeadingComment { template: "old_template".to_owned() };
}

#[test]
fn numbers_parse_like_std() {
    assert_eq!(parse_usize("42"), Some(42));
    assert_eq!(parse_usize("+7"), Some(7));
    assert_eq!(parse_usize(""), None);
    assert_eq!(parse_usize("-1"), None);
    assert_eq!(parse_usize("4a"), None);
    assert_eq!(parse_usize("99999999999999999999999"), None);
}

#[test]
fn track_numbers_with_totals() {
    assert_eq!(parse_number_with_optional_total("3"), Some((3, None)));
    assert_eq!(parse_number_with_optional_total("3/12"), Some((3, Some(12))));
    assert_eq!(parse_number_with_optional_total("3/"), None);
    assert_eq!(parse_number_with_optional_total("x/12"), None);
    assert_eq!(parse_number_with_optional_total("1/2/3"), None);
}

#[test]
fn tag_text_becomes_a_number_when_it_is_one() {
    assert_eq!(coerce_output_value("12".to_string()), OutputValue::Number(12));
    assert_eq!(coerce_output_value("12b".to_string()), OutputValue::Text("12b".to_string()));
}

#[test]
fn field_names_are_classified_in_lowercase() {
    assert_eq!(classify_field("Args"), FieldRequest::Arguments);
    assert_eq!(classify_field("arguments"), FieldRequest::Arguments);
    assert_eq!(classify_field("DATE"), FieldRequest::Date);
    assert_eq!(classify_field("AlbumArtist"), FieldRequest::Tag("albumartist".to_string()));
}

#[test]
fn tag_values_are_made_safe_then_numbers() {
    assert_eq!(tag_value("AC/DC".to_string()), OutputValue::Text("AC-DC".to_string()));
    assert_eq!(tag_value("07".to_string()), OutputValue::Number(7));
    assert_eq!(tag_value("Vol. 2...".to_string()), OutputValue::Text("Vol. 2".to_string()));
    assert_eq!(tag_value("12:".to_string()), OutputValue::Number(12));
}

#[test]
fn numbers_and_totals_come_from_pairs() {
    assert_eq!(tag_lookup(TagKind::Number, Some("3/12".to_string())), Some(OutputValue::Number(3)));
    assert_eq!(tag_lookup(TagKind::Total, Some("3/12".to_string())), Some(OutputValue::Number(12)));
    assert_eq!(tag_lookup(TagKind::Total, Some("3".to_string())), None);
    assert_eq!(tag_lookup(TagKind::Number, Some("x".to_string())), None);
    assert_eq!(tag_lookup(TagKind::Plain, None), None);
    assert_eq!(
        tag_lookup(TagKind::Plain, Some("Who?".to_string())),
        Some(OutputValue::Text("Who".to_string()))
    );
}

#[test]
fn the_date_falls_back_to_year_and_original_release() {
    assert_eq!(
        date_value(Some("2001-01-01".to_string()), Some("1999".to_string()), None),
        Some(OutputValue::Text("2001-01-01".to_string()))
    );
    assert_eq!(date_value(None, Some("1999".to_string()), None), Some(OutputValue::Number(1999)));
    assert_eq!(
        date_value(None, None, Some("1980-02-02".to_string())),
        Some(OutputValue::Text("1980-02-02".to_string()))
    );
    assert_eq!(date_value(None, None, None), None);
}

#[test]
fn targets_keep_the_source_extension() {
    assert_eq!(construct_target_path("/music", "Artist/Title", "/in/track.flac"), "/music/Artist/Title.flac");
    assert_eq!(construct_target_path("/music", "Artist/Title", "/in/track"), "/music/Artist/Title");
    assert_eq!(construct_target_path("/music", "/abs/Title", "x.mp3"), "/abs/Title.mp3");
}

#[test]
fn tag_text_never_holds_separators() {
    match tag_value("a/b\\c".to_string()) {
        OutputValue::Text(t) => assert!(!t.contains('/') && !t.contains('\\')),
        OutputValue::Number(_) => panic!("expected text"),
    }
}
