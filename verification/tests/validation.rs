use tfmttools::action::RenameAction;
use tfmttools::sanitize::{remove_forbidden_characters, sanitize_path};
use tfmttools::validation::{
    forbidden_characters, forbidden_leading_or_trailing_characters, is_windows_reserved_name,
    validate_double_separators, validate_rename_actions, validate_rename_actions_with_separator,
    ValidationError,
};

fn action(source: &str, target: &str) -> RenameAction {
    RenameAction::new(source.to_string(), target.to_string())
}

fn errors_of(actions: &[RenameAction]) -> Vec<ValidationError> {
    let exists = vec![false; actions.len()];
    validate_rename_actions_with_separator(actions, &exists, '/')
}

fn assert_valid(actions: &[RenameAction]) {
    assert!(errors_of(actions).is_empty());
}

fn assert_single_error(actions: &[RenameAction]) -> ValidationError {
    let mut errors = errors_of(actions);
    assert!(errors.len() == 1);
    errors.pop().unwrap()
}

fn assert_n_errors(actions: &[RenameAction], n: usize) -> Vec<ValidationError> {
    let errors = errors_of(actions);
    let len = errors.len();
    assert_eq!(len, n, "expected {n} errors, got {len}.");
    errors
}

fn assert_double_separator_error(actions: &[RenameAction]) {
    let error = assert_single_error(actions);
    assert!(matches!(error, ValidationError::DoubleSeparators(..)));
}

#[test]
fn test_validate_double_separators() {
    let valid = [action("/a/b/c/", "/d/e/f/")];
    assert_valid(&valid);

    let leading = [action("/a/b/c/", "//d/e/f/")];
    assert_double_separator_error(&leading);

    let middle = [action("/a/b/c/", "/d//e/f/")];
    assert_double_separator_error(&middle);

    let trailing = [action("/a/b/c/", "/d/e/f//")];
    assert_double_separator_error(&trailing);
}

#[test]
fn test_validate_collision() {
    let valid = [action("/a/b/c/", "/d/e/f/"), action("/g/h/i/", "/j/k/l/")];
    assert_valid(&valid);

    let colliding = [action("/a/b/c/", "/d/e/f/"), action("/g/h/i/", "/d/e/f/")];
    let error = assert_single_error(&colliding);
    assert!(matches!(error, ValidationError::Collision(..)));
}

#[test]
fn test_validate_case_insensitive_collision() {
    let colliding = [
        action("input/a.mp3", "music/Track.mp3"),
        action("input/b.mp3", "music/track.mp3"),
    ];

    let error = assert_single_error(&colliding);
    assert!(matches!(error, ValidationError::CaseInsensitiveCollision(..)));
}

#[test]
fn test_validate_reserved_windows_names() {
    let reserved = [
        action("input/a.mp3", "music/CON.mp3"),
        action("input/b.mp3", "music/NUL/track.mp3"),
        action("input/c.mp3", "music/lpt1.flac"),
    ];

    let errors = assert_n_errors(&reserved, 3);
    assert!(errors.into_iter().all(|e| matches!(e, ValidationError::ReservedName { .. })));
}

#[test]
fn test_validate_forbidden() {
    let valid = [action("/a/b/c/", "/d/e/f/"), action("/a/b/c/", "/d/.e/f/")];
    assert_valid(&valid);

    let forbidden_leading = [
        action("/a/b/c/", "/d/ e/f/"),
        action("/a/b/c/", "/d/e /f/"),
        action("/a/b/c/", "/d/e./f/"),
    ];

    let errors = assert_n_errors(&forbidden_leading, 3);
    assert!(errors.into_iter().all(|e| matches!(
        e,
        ValidationError::ForbiddenCharacterLeadingOrTrailingPathComponent { .. }
    )));
}

#[test]
fn validate_path_too_long() {
    let valid = [action("/a/b/c/", "/d/e/f/")];
    assert_valid(&valid);

    let too_long = [action("/a/b/c/", &format!("/d{}/f/", "/e".repeat(128)))];
    let error = assert_single_error(&too_long);
    assert!(matches!(error, ValidationError::PathTooLong { .. }));

    let exact = [action("/a/b/c/", &format!("/d{}/f", "/e".repeat(126)))];
    let error = assert_single_error(&exact);
    assert!(matches!(error, ValidationError::PathTooLong { actual_length: 256, .. }));
}

#[test]
fn path_of_255_bytes_is_accepted() {
    let target = format!("/d{}/f", "/e".repeat(126));
    let shorter = &target[..255];
    let actions = [action("/a/b/c/", shorter)];
    assert_valid(&actions);
}

#[test]
fn existing_target_is_reported() {
    let actions = [action("in/a.mp3", "out/a.mp3")];
    let errors = validate_rename_actions_with_separator(&actions, &[true], '/');
    assert_eq!(errors.len(), 1);
    assert!(matches!(errors[0], ValidationError::TargetExists(..)));
}

#[test]
fn validation_errors_come_in_check_order() {
    let actions = [
        action("in/a.mp3", "out//CON.mp3"),
        action("in/b.mp3", "out//CON.mp3"),
    ];
    let errors = validate_rename_actions_with_separator(&actions, &[false, false], '/');
    // two doubled separators, one collision (identical targets are no
    // case-insensitive collision), two reserved names
    assert_eq!(errors.len(), 5);
    assert!(matches!(errors[0], ValidationError::DoubleSeparators(..)));
    assert!(matches!(errors[1], ValidationError::DoubleSeparators(..)));
    assert!(matches!(errors[2], ValidationError::Collision(..)));
    assert!(matches!(errors[3], ValidationError::ReservedName { .. }));
    assert!(matches!(errors[4], ValidationError::ReservedName { .. }));
}

#[test]
fn collision_lists_every_source() {
    let actions = [
        action("a.mp3", "x.mp3"),
        action("b.mp3", "y.mp3"),
        action("c.mp3", "x.mp3"),
    ];
    let errors = errors_of(&actions);
    assert_eq!(errors.len(), 1);
    match &errors[0] {
        ValidationError::Collision(actions) => {
            assert_eq!(actions.len(), 2);
            assert_eq!(actions[0].source(), "a.mp3");
            assert_eq!(actions[1].source(), "c.mp3");
        },
        _ => panic!("expected a collision"),
    }
}

#[test]
fn backslash_separator_finds_doubled_backslashes() {
    let actions = [action("a", "d\\\\e")];
    let errors = validate_double_separators(&actions, '\\');
    assert_eq!(errors.len(), 1);
    let none = validate_double_separators(&actions, '/');
    assert!(none.is_empty());
}

#[test]
fn platform_validation_accepts_a_plain_plan() {
    let actions = [action("in/a.mp3", "out/a.mp3")];
    assert!(validate_rename_actions(&actions, &[false]).is_empty());
}

#[test]
fn reserved_names_are_case_insensitive_and_ignore_extension() {
    assert!(is_windows_reserved_name("CON"));
    assert!(is_windows_reserved_name("con.mp3"));
    assert!(is_windows_reserved_name("Lpt9"));
    assert!(is_windows_reserved_name("COM1.flac"));
    assert!(!is_windows_reserved_name("CONCERT.mp3"));
    assert!(!is_windows_reserved_name("track.mp3"));
}

#[test]
fn forbidden_tables_match_the_documented_characters() {
    let chars: Vec<char> = forbidden_characters().iter().map(|c| c.char()).collect();
    assert_eq!(chars, vec!['<', '"', '>', ':', '|', '?', '*', '~', '/', '\\']);
    let replaced: Vec<Option<char>> =
        forbidden_characters().iter().map(|c| c.replacement()).collect();
    assert_eq!(replaced[7], Some('-'));
    assert_eq!(replaced[0], None);
    let edge = forbidden_leading_or_trailing_characters();
    assert_eq!(edge.len(), 2);
    assert_eq!(edge[0].char(), ' ');
    assert!(edge[0].leading() && edge[0].trailing());
    assert_eq!(edge[1].char(), '.');
    assert!(!edge[1].leading() && edge[1].trailing());
}

#[test]
fn sanitize_removes_and_replaces_forbidden_characters() {
    assert_eq!(remove_forbidden_characters("a:b*c~d/e\\f"), "abc-d-e-f");
    assert_eq!(remove_forbidden_characters("a:b*c."), "abc");
    assert_eq!(remove_forbidden_characters("name.. "), "name.. ");
    assert_eq!(sanitize_path("a:b/c*d"), "ab/cd/");
    assert_eq!(sanitize_path("a\\b\\"), "a/b/");
    assert_eq!(sanitize_path("//"), "");
}

#[test]
fn sanitize_is_idempotent_on_an_example() {
    let once = remove_forbidden_characters(" <a>:b.~. ");
    let twice = remove_forbidden_characters(&once);
    assert_eq!(once, twice);
}

#[test]
fn targets_freed_by_the_plan_are_not_reported() {
    let swap = [action("m/a.mp3", "m/b.mp3"), action("m/b.mp3", "m/a.mp3")];
    assert!(validate_rename_actions_with_separator(&swap, &[true, true], '/').is_empty());
    let chain = [action("m/a.mp3", "m/b.mp3"), action("m/b.mp3", "m/c.mp3"), action("m/c.mp3", "m/d.mp3")];
    let errors = validate_rename_actions_with_separator(&chain, &[true, true, true], '/');
    assert_eq!(errors.len(), 1);
    assert!(matches!(&errors[0], ValidationError::TargetExists(a) if a.target() == "m/d.mp3"));
    let case_only = [action("m/track.mp3", "m/Track.mp3")];
    assert!(validate_rename_actions_with_separator(&case_only, &[true], '/').is_empty());
}
