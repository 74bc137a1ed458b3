use tfmttools::action::RenameAction;
use tfmttools::planner::TemporaryPathSearch;
use tfmttools::planner::folders_to_make;
use tfmttools::action::CaseInsensitivePathSet;

#[test]
fn a_new_set_holds_nothing() {
    let set = CaseInsensitivePathSet::new();
    assert!(!set.contains("music/a.mp3"));
}

#[test]
fn a_set_holds_each_inserted_path_ignoring_case() {
    let mut set = CaseInsensitivePathSet::new();
    assert!(set.insert("music/A.mp3"));
    assert!(set.insert("music/b.mp3"));
    assert!(!set.insert("MUSIC/b.MP3"));
    assert!(set.insert("other/C.flac"));
    assert!(set.contains("MUSIC/a.mp3"));
    assert!(set.contains("music/B.mp3"));
    assert!(set.contains("OTHER/c.FLAC"));
    assert!(!set.contains("music/d.mp3"));
}

#[test]
fn a_temporary_path_search_skips_taken_and_existing_candidates() {
    let actions = vec![
        RenameAction::new("m/a.mp3".to_owned(), "m/b.mp3".to_owned()),
        RenameAction::new("m/b.mp3".to_owned(), "m/a.mp3".to_owned()),
    ];
    let mut search = TemporaryPathSearch::new(&actions, 7);
    let first = search.candidate("m/a.mp3");
    assert_eq!(first, "m/.tfmt-7-0-0");
    assert!(!search.offer(first, true));
    assert_eq!(search.attempt(), 1);
    let second = search.candidate("m/a.mp3");
    assert_eq!(second, "m/.tfmt-7-0-1");
    assert!(search.offer(second, false));
    assert_eq!(search.attempt(), 0);
    assert!(!search.offer("M/.TFMT-7-0-1".to_owned(), false));
    assert!(!search.offer("m/B.mp3".to_owned(), false));
    let third = search.candidate("m/b.mp3");
    assert_eq!(third, "m/.tfmt-7-1-2");
    assert!(search.offer(third, false));
    assert_eq!(search.into_paths(), vec!["m/.tfmt-7-0-1".to_owned(), "m/.tfmt-7-1-2".to_owned()]);
}

#[test]
fn folders_are_made_parents_first_and_once() {
    let chains = vec![
        vec!["out/a/b".to_owned(), "out/a".to_owned(), "out".to_owned()],
        vec!["out/a/c".to_owned(), "out/a".to_owned(), "out".to_owned()],
        vec![],
    ];
    assert_eq!(
        folders_to_make(&chains),
        vec!["out".to_owned(), "out/a".to_owned(), "out/a/b".to_owned(), "out/a/c".to_owned()]
    );
}
