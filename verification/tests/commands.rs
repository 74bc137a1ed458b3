use tfmttools::cleanup::deepest_first;
use tfmttools::action::{Action, RenameAction};
use tfmttools::cleanup::{
    cleanup_done_notices, cleanup_heading, checksum_read_length, checksum_text, cleanup_rename_target, confirmed_delete,
    file_is_safe_to_delete, longest_common_folder, path_starts_with, plan_cleanup, protected_cleanup_paths,
    strip_path_prefix, to_hex_upper,
    unprotected_paths, RemainingItems, MAX_BYTES_TO_READ,
};
use tfmttools::commands::{
    choose_template, records_for, reuse_notice, NoTemplate, TemplateChoice, TemplateSource,
    record_operations, state_after, undo_redo_notice, undo_redo_prompt, validation_report,
    UndoRedoArgs,
};
use tfmttools::error::TFMTError;
use tfmttools::handler::{ActionHandler, FsOperation};
use tfmttools::history::{
    ActionRecordMetadata, History, HistoryMode, LoadHistoryResult, Record, RecordState,
    TemplateMetadata,
};
use tfmttools::validation::validate_rename_actions_with_separator;

#[test]
fn undo_amount_defaults_to_one() {
    assert_eq!(UndoRedoArgs { amount: None }.amount_or_default(), 1);
    assert_eq!(UndoRedoArgs { amount: Some(3) }.amount_or_default(), 3);
}

#[test]
fn undo_notices() {
    assert_eq!(undo_redo_notice(HistoryMode::Undo, 1, 0), Some("There are no runs to undo.".to_string()));
    assert_eq!(
        undo_redo_notice(HistoryMode::Redo, 3, 2),
        Some("Tried to redo 3 runs, but only 2 can be redone.".to_string())
    );
    assert_eq!(undo_redo_notice(HistoryMode::Undo, 2, 2), None);
    assert_eq!(undo_redo_prompt(HistoryMode::Undo, 1), "Undo 1 record?");
    assert_eq!(undo_redo_prompt(HistoryMode::Redo, 2), "Redo 2 records?");
    assert_eq!(state_after(HistoryMode::Undo), RecordState::Undone);
    assert_eq!(state_after(HistoryMode::Redo), RecordState::Redone);
}

fn record(actions: Vec<Action>) -> Record {
    Record::from_parts(
        Some(0),
        RecordState::Applied,
        actions,
        ActionRecordMetadata::new(TemplateMetadata::FileOrName("t".to_string()), vec![], "r".to_string()),
        0,
    )
}

fn pairs(ops: &[FsOperation]) -> Vec<String> {
    ops.iter()
        .map(|op| match op {
            FsOperation::MoveFile { from, to } => format!("mv {from} {to}"),
            FsOperation::CopyFile { from, to } => format!("cp {from} {to}"),
            FsOperation::RemoveFile(p) => format!("rm {p}"),
            FsOperation::CreateDir(p) => format!("mkdir {p}"),
            FsOperation::RemoveDir(p) => format!("rmdir {p}"),
        })
        .collect()
}

#[test]
fn undoing_a_record_reverses_its_actions_last_first() {
    let rec = record(vec![
        Action::MakeDir("out".to_string()),
        Action::MoveFile { source: "a".to_string(), target: "out/a".to_string() },
    ]);
    let handler = ActionHandler::new();
    let undo = record_operations(&handler, HistoryMode::Undo, &rec);
    assert_eq!(pairs(&undo), vec!["mv out/a a", "rmdir out"]);
    let redo = record_operations(&handler, HistoryMode::Redo, &rec);
    assert_eq!(pairs(&redo), vec!["mkdir out", "mv a out/a"]);
}

#[test]
fn rejected_plans_are_reported() {
    assert_eq!(validation_report(&[]), None);
    let actions = [RenameAction::new("in/a".to_string(), "out//a".to_string())];
    let errors = validate_rename_actions_with_separator(&actions, &[false], '/');
    assert_eq!(
        validation_report(&errors).unwrap(),
        "Had validation errors:\nThe target file contains double path separators.\n\tsource: in/a\n\ttarget: out//a\n"
    );
    assert!(errors[0].is_describable());
}

#[test]
fn only_images_are_deleted_without_asking() {
    assert!(file_is_safe_to_delete("music/cover.jpg"));
    assert!(file_is_safe_to_delete("music/cover.png"));
    assert!(!file_is_safe_to_delete("music/cover.JPG"));
    assert!(!file_is_safe_to_delete("music/notes.txt"));
    assert!(!file_is_safe_to_delete("music/README"));
}

#[test]
fn cleanup_plans_ask_for_unknown_files() {
    assert!(plan_cleanup(RemainingItems { files: vec![], directories: vec![] }).is_none());
    let plan = plan_cleanup(RemainingItems {
        files: vec!["a/cover.jpg".to_string()],
        directories: vec!["a".to_string()],
    })
    .unwrap();
    assert!(!plan.requires_confirmation);
    assert!(!confirmed_delete(&plan));
    let plan = plan_cleanup(RemainingItems {
        files: vec!["a/cover.jpg".to_string(), "a/notes.txt".to_string()],
        directories: vec![],
    })
    .unwrap();
    assert!(plan.requires_confirmation);
    assert!(confirmed_delete(&plan));
    assert_eq!(plan.files_to_delete.len(), 2);
}

#[test]
fn renamed_targets_and_unchanged_files_are_protected() {
    let applied = vec![
        Action::MoveFile { source: "in/a".to_string(), target: "out/a".to_string() },
        Action::MakeDir("out".to_string()),
    ];
    let protected = protected_cleanup_paths(&applied, &["in/keep".to_string()]);
    assert!(protected.contains(&"out/a".to_string()));
    assert!(protected.contains(&"in/keep".to_string()));
    assert!(!protected.contains(&"out".to_string()));
    let left = unprotected_paths(
        vec!["out/a".to_string(), "in/b".to_string(), "in/keep".to_string()],
        &protected,
    );
    assert_eq!(left, vec!["in/b".to_string()]);
}

#[test]
fn removed_files_are_kept_under_the_run() {
    assert_eq!(
        cleanup_rename_target("/m/in/sub/a.txt", "/m/in", "ABC", "/bin", "run1"),
        Some("/bin/run1/sub_a.txt_ABC".to_string())
    );
    assert_eq!(cleanup_rename_target("/x/a.txt", "/m/in", "ABC", "/bin", "run1"), None);
    assert_eq!(strip_path_prefix("/m/in/a.txt", "/m"), "./in/a.txt");
    assert_eq!(strip_path_prefix("/other/a.txt", "/m"), "/other/a.txt");
}

#[test]
fn checksums_read_a_bounded_prefix() {
    assert_eq!(checksum_read_length("f", 10).unwrap(), 10);
    assert_eq!(checksum_read_length("f", u64::MAX).ok(), if usize::MAX as u64 == u64::MAX {
        Some(MAX_BYTES_TO_READ)
    } else {
        None
    });
    assert_eq!(checksum_read_length("f", 100_000_000).unwrap(), MAX_BYTES_TO_READ);
    assert_eq!(to_hex_upper(0xBEEF).iter().collect::<String>(), "BEEF");
    assert_eq!(to_hex_upper(0).iter().collect::<String>(), "0");
    let text = checksum_text(b"hello");
    assert!(!text.is_empty());
    assert!(text.chars().all(|c| c.is_ascii_hexdigit() && !c.is_ascii_lowercase()));
    assert_ne!(checksum_text(b"hello"), checksum_text(b"world"));
    let _: Option<TFMTError> = None;
}

#[test]
fn cleanup_notices() {
    let plan = plan_cleanup(RemainingItems {
        files: vec!["a/notes.txt".to_string(), "a/b.txt".to_string()],
        directories: vec!["a".to_string()],
    })
    .unwrap();
    assert_eq!(cleanup_heading(&plan), Some("Found 2 remaining files.".to_string()));
    assert_eq!(cleanup_done_notices(&plan), vec!["Deleted.", "Removed empty folders."]);
    let plan = plan_cleanup(RemainingItems { files: vec!["c.jpg".to_string()], directories: vec![] }).unwrap();
    assert_eq!(cleanup_heading(&plan), Some("Deleted the following files:".to_string()));
    assert!(cleanup_done_notices(&plan).is_empty());
    let plan = plan_cleanup(RemainingItems { files: vec![], directories: vec!["d".to_string()] }).unwrap();
    assert_eq!(cleanup_heading(&plan), None);
    assert_eq!(cleanup_done_notices(&plan), vec!["Removed empty folders."]);
}

fn history_with(template: TemplateMetadata, state: RecordState) -> History {
    History::from_records(
        "h".to_string(),
        vec![Record::from_parts(
            Some(0),
            state,
            vec![],
            ActionRecordMetadata::new(template, vec!["x".to_string()], "r".to_string()),
            0,
        )],
    )
}

#[test]
fn the_given_template_is_used() {
    let h = History::new("h".to_string());
    let t = choose_template(&TemplateChoice::FileOrName("simple".to_string()), &["a".to_string()], &h, LoadHistoryResult::New)
        .unwrap();
    assert!(matches!(&t, TemplateSource::FileOrName { name, arguments, reused: false } if name == "simple" && arguments == &vec!["a".to_string()]));
    assert_eq!(reuse_notice(&t), None);
    let t = choose_template(&TemplateChoice::Script("{{ x }}".to_string()), &[], &h, LoadHistoryResult::New).unwrap();
    assert!(matches!(&t, TemplateSource::Script { script, reused: false, .. } if script == "{{ x }}"));
}

#[test]
fn the_previous_template_is_reused() {
    let h = history_with(TemplateMetadata::FileOrName("simple".to_string()), RecordState::Applied);
    let t = choose_template(&TemplateChoice::Previous, &[], &h, LoadHistoryResult::Loaded).unwrap();
    assert!(matches!(&t, TemplateSource::FileOrName { name, arguments, reused: true } if name == "simple" && arguments == &vec!["x".to_string()]));
    assert_eq!(
        reuse_notice(&t),
        Some("Re-using template 'simple' and arguments from previous rename.".to_string())
    );
    let h = history_with(TemplateMetadata::Script("s".to_string()), RecordState::Undone);
    let t = choose_template(&TemplateChoice::Previous, &[], &h, LoadHistoryResult::Loaded).unwrap();
    assert_eq!(
        reuse_notice(&t),
        Some("Re-using script\n```\n's'\n```\n and arguments from previous rename.".to_string())
    );
}

#[test]
fn no_template_without_history() {
    let h = History::new("h".to_string());
    let e = choose_template(&TemplateChoice::Previous, &[], &h, LoadHistoryResult::Loaded).unwrap_err();
    assert_eq!(e, NoTemplate);
    assert_eq!(e.message(), "No template specified and no data from previous run available.");
    let h = history_with(TemplateMetadata::FileOrName("simple".to_string()), RecordState::Applied);
    assert!(choose_template(&TemplateChoice::Previous, &[], &h, LoadHistoryResult::New).is_err());
}

#[test]
fn records_to_undo_and_redo() {
    let h = History::from_records(
        "h".to_string(),
        vec![
            record(vec![]),
            Record::from_parts(
                Some(1),
                RecordState::Undone,
                vec![],
                ActionRecordMetadata::new(TemplateMetadata::FileOrName("t".to_string()), vec![], "r".to_string()),
                0,
            ),
        ],
    );
    assert_eq!(records_for(&h, HistoryMode::Undo, 5).len(), 1);
    assert_eq!(records_for(&h, HistoryMode::Redo, 5)[0].id(), Some(1));
    assert!(records_for(&h, HistoryMode::Redo, 0).is_empty());
}

/// Adler-32 written out: `a` starts at 1, `b` at 0, both modulo 65521.
fn adler32_by_hand(bytes: &[u8]) -> u32 {
    let (mut a, mut b) = (1u32, 0u32);
    for &byte in bytes {
        a = (a + byte as u32) % 65521;
        b = (b + a) % 65521;
    }
    (b << 16) | a
}

#[test]
fn checksum_is_adler32_of_native_length_and_bytes() {
    let buf = b"abc";
    let mut fed = buf.len().to_ne_bytes().to_vec();
    fed.extend_from_slice(buf);
    assert_eq!(checksum_text(buf), format!("{:X}", adler32_by_hand(&fed)));
    assert_ne!(checksum_text(buf), format!("{:X}", adler32_by_hand(buf)));
}

#[test]
fn folders_are_removed_deepest_first_keeping_ties_in_order() {
    let dirs = vec!["a".to_owned(), "a/bb".to_owned(), "c/d".to_owned(), "a/b".to_owned(), "e".to_owned()];
    assert_eq!(
        deepest_first(dirs),
        vec!["a/bb".to_owned(), "c/d".to_owned(), "a/b".to_owned(), "a".to_owned(), "e".to_owned()]
    );
    assert!(deepest_first(vec![]).is_empty());
}

#[test]
fn the_common_folder_is_the_longest_shared_by_all_sources() {
    let mv = |s: &str, t: &str| Action::MoveFile { source: s.to_owned(), target: t.to_owned() };
    let actions = vec![
        mv("/music/in/a/x.mp3", "/out/x.mp3"),
        Action::MakeDir("/out".to_owned()),
        mv("/music/in/b/y.mp3", "/out/y.mp3"),
        mv("/music/in/a/z.mp3", "/out/z.mp3"),
    ];
    assert_eq!(longest_common_folder(&actions), Some("/music/in".to_owned()));
    assert_eq!(longest_common_folder(&[mv("/a/x.mp3", "/b/x.mp3")]), Some("/a".to_owned()));
    assert_eq!(longest_common_folder(&[Action::MakeDir("/out".to_owned())]), None);
    assert_eq!(longest_common_folder(&[mv("/a/x", "/t"), mv("b/y", "/u")]), None);
    assert_eq!(longest_common_folder(&[mv("a/x", "/t"), mv("b/y", "/u")]), Some("".to_owned()));
}

#[test]
fn starts_with_compares_whole_components() {
    assert!(path_starts_with("/music/in/a", "/music/in"));
    assert!(!path_starts_with("/music/input", "/music/in"));
    assert!(path_starts_with("a/b", ""));
}
