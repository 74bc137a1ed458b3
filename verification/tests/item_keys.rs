use lofty::tag::ItemKey;
use tfmttools::context::TagKind;
use tfmttools::error::TFMTError;
use tfmttools::item_keys::{tag_kind, ItemKeys};

fn key(name: &str) -> usize {
    ItemKeys::all().iter().position(|k| *k == name).unwrap()
}

#[test]
fn every_key_is_listed_once() {
    let all = ItemKeys::all();
    assert_eq!(all.len(), 100);
    assert_eq!(all[0], "AlbumTitle");
    assert_eq!(all[99], "AppleId3v2ContentGroup");
    let mut sorted = all.clone();
    sorted.sort();
    sorted.dedup();
    assert_eq!(sorted.len(), 100);
}

#[test]
fn names_are_accepted_in_every_case_style() {
    let keys = ItemKeys::build().expect("no camel-case name is entered twice");
    let album_artist = key("AlbumArtist");
    for name in ["albumArtist", "albumartist", "album_artist", "album-artist", "AlbumArtist", "ALBUM_ARTIST", "ALBUM-ARTIST", "Album-Artist", "ALBUMARTIST"] {
        assert_eq!(keys.from_string(name).unwrap(), album_artist, "{name}");
    }
}

#[test]
fn aliases_name_their_keys() {
    let keys = ItemKeys::build().unwrap();
    assert_eq!(keys.from_string("artist").unwrap(), key("TrackArtist"));
    assert_eq!(keys.from_string("album").unwrap(), key("AlbumTitle"));
    assert_eq!(keys.from_string("albumsort").unwrap(), key("AlbumTitleSortOrder"));
    assert_eq!(keys.from_string("disknumber").unwrap(), key("DiscNumber"));
    assert_eq!(keys.from_string("title").unwrap(), key("TrackTitle"));
    assert_eq!(keys.from_string("tracknumber").unwrap(), key("TrackNumber"));
}

#[test]
fn unknown_names_are_errors() {
    let keys = ItemKeys::build().unwrap();
    match keys.from_string("nosuchtag") {
        Err(TFMTError::UnknownTag(t)) => assert_eq!(t, "nosuchtag"),
        other => panic!("expected an unknown tag, got {other:?}"),
    }
}

#[test]
fn counts_are_read_as_numbers_or_totals() {
    assert_eq!(tag_kind(key("TrackTotal")), TagKind::Total);
    assert_eq!(tag_kind(key("DiscTotal")), TagKind::Total);
    assert_eq!(tag_kind(key("MovementTotal")), TagKind::Total);
    assert_eq!(tag_kind(key("TrackNumber")), TagKind::Number);
    assert_eq!(tag_kind(key("DiscNumber")), TagKind::Number);
    assert_eq!(tag_kind(key("MovementNumber")), TagKind::Number);
    assert_eq!(tag_kind(key("Genre")), TagKind::Plain);
}

use tfmttools::context::{AudioFileContext, TemplateValue};

fn context_with(pairs: &[(&str, &str)]) -> AudioFileContext {
    let mut tags: Vec<Option<String>> = vec![None; 100];
    for (name, value) in pairs {
        tags[key(name)] = Some(value.to_string());
    }
    AudioFileContext::safe(tags, vec!["x".to_string(), "y".to_string()])
}

#[test]
fn templates_see_tags_by_name() {
    let keys = ItemKeys::build().unwrap();
    let ctx = context_with(&[
        ("TrackArtist", "AC/DC"),
        ("TrackNumber", "3/12"),
        ("TrackTotal", "3/12"),
        ("Year", "1980"),
    ]);
    assert_eq!(ctx.get_value(&keys, "Artist"), Some(TemplateValue::Text("AC-DC".to_string())));
    assert_eq!(ctx.get_value(&keys, "track_number"), Some(TemplateValue::Number(3)));
    assert_eq!(ctx.get_value(&keys, "TrackTotal"), Some(TemplateValue::Number(12)));
    assert_eq!(ctx.get_value(&keys, "date"), Some(TemplateValue::Number(1980)));
    assert_eq!(
        ctx.get_value(&keys, "args"),
        Some(TemplateValue::Arguments(vec!["x".to_string(), "y".to_string()]))
    );
    assert_eq!(ctx.get_value(&keys, "genre"), None);
    assert_eq!(ctx.get_value(&keys, "nonsense"), None);
}

#[test]
fn every_key_name_is_a_lofty_item_key() {
    for name in ItemKeys::all() {
        assert!(
            ItemKey::VARIANTS.iter().any(|k| format!("{k:?}") == *name),
            "{name} is not a lofty ItemKey"
        );
    }
}
