use tfmttools::action::{Action, RenameAction};
use tfmttools::handler::{actions_from_move_result, ActionHandler, FsOperation, MoveFileResult, MoveMode};
use tfmttools::planner::{needs_temporary_staging, plan_move_actions, PlannedAction, StagedRenamePlanner};

fn rename_action(source: &str, target: &str) -> (RenameAction, String, String) {
    (RenameAction::new(source.to_string(), target.to_string()), source.to_string(), target.to_string())
}

#[test]
fn copied_and_removed_move_records_copy_and_remove_actions() {
    let (rename_action, source, target) = rename_action("source.mp3", "target.mp3");

    let actions = actions_from_move_result(&rename_action, MoveFileResult::CopiedAndRemoved);

    assert_eq!(actions.len(), 2);
    assert!(matches!(
        &actions[0],
        Action::CopyFile { source: copy_source, target: copy_target }
            if copy_source == &source && copy_target == &target
    ));
    assert!(matches!(&actions[1], Action::RemoveFile(remove_source) if remove_source == &source));
}

#[test]
fn moved_result_records_move_action() {
    let (rename_action, source, target) = rename_action("source.mp3", "target.mp3");

    let actions = actions_from_move_result(&rename_action, MoveFileResult::Moved);

    assert_eq!(actions.len(), 1);
    assert!(matches!(
        &actions[0],
        Action::MoveFile { source: move_source, target: move_target }
            if move_source == &source && move_target == &target
    ));
}

#[test]
fn always_copy_mode_copies_then_removes() {
    let (ra, _, _) = rename_action("a.mp3", "b.mp3");
    let handler = ActionHandler::new().move_mode(MoveMode::AlwaysCopy);
    let ops = handler.rename_operations(&ra);
    assert_eq!(ops.len(), 2);
    assert!(matches!(&ops[0], FsOperation::CopyFile { from, to } if from == "a.mp3" && to == "b.mp3"));
    assert!(matches!(&ops[1], FsOperation::RemoveFile(p) if p == "a.mp3"));
    // the move result is not consulted when always copying
    let actions = handler.rename(&ra, MoveFileResult::Moved);
    assert_eq!(actions.len(), 2);
    assert!(matches!(&actions[0], Action::CopyFile { .. }));
}

#[test]
fn auto_mode_moves() {
    let (ra, _, _) = rename_action("a.mp3", "b.mp3");
    let handler = ActionHandler::new();
    let ops = handler.rename_operations(&ra);
    assert_eq!(ops.len(), 1);
    assert!(matches!(&ops[0], FsOperation::MoveFile { from, to } if from == "a.mp3" && to == "b.mp3"));
    let actions = handler.rename(&ra, MoveFileResult::CopiedAndRemoved);
    assert_eq!(actions.len(), 2);
}

#[test]
fn undo_reverses_each_action() {
    let handler = ActionHandler::new();
    let mv = Action::MoveFile { source: "a".to_string(), target: "b".to_string() };
    let undo = handler.undo(&mv);
    assert!(matches!(&undo[0], FsOperation::MoveFile { from, to } if from == "b" && to == "a"));
    let redo = handler.redo(&mv);
    assert!(matches!(&redo[0], FsOperation::MoveFile { from, to } if from == "a" && to == "b"));

    let cp = Action::CopyFile { source: "a".to_string(), target: "b".to_string() };
    let undo = handler.undo(&cp);
    assert_eq!(undo.len(), 2);
    assert!(matches!(&undo[0], FsOperation::CopyFile { from, to } if from == "b" && to == "a"));
    assert!(matches!(&undo[1], FsOperation::RemoveFile(p) if p == "b"));

    assert!(handler.undo(&Action::RemoveFile("a".to_string())).is_empty());
    assert_eq!(handler.apply(&Action::RemoveFile("a".to_string())).len(), 1);

    let mk = Action::MakeDir("d".to_string());
    assert!(matches!(&handler.apply(&mk)[0], FsOperation::CreateDir(p) if p == "d"));
    assert!(matches!(&handler.undo(&mk)[0], FsOperation::RemoveDir(p) if p == "d"));
    let rm = Action::RemoveDir("d".to_string());
    assert!(matches!(&handler.undo(&rm)[0], FsOperation::CreateDir(p) if p == "d"));
}

#[test]
fn swap_needs_staging() {
    let swap = vec![
        RenameAction::new("a.mp3".to_string(), "b.mp3".to_string()),
        RenameAction::new("b.mp3".to_string(), "a.mp3".to_string()),
    ];
    assert!(needs_temporary_staging(&swap));
    let case_only = vec![RenameAction::new("a.mp3".to_string(), "A.mp3".to_string())];
    assert!(needs_temporary_staging(&case_only));
    let plain = vec![RenameAction::new("a.mp3".to_string(), "out/a.mp3".to_string())];
    assert!(!needs_temporary_staging(&plain));
}

#[test]
fn temporary_paths_avoid_reserved_names() {
    let actions = vec![RenameAction::new("dir/a.mp3".to_string(), "dir/A.mp3".to_string())];
    let mut planner = StagedRenamePlanner::new(&actions);
    let candidate = StagedRenamePlanner::temporary_candidate("dir", 7, 0, 0);
    assert_eq!(candidate, "dir/.tfmt-7-0-0");
    assert!(!planner.try_reserve("dir/A.MP3", false));
    assert!(!planner.try_reserve(&candidate, true));
    assert!(planner.try_reserve(&candidate, false));
    assert!(!planner.try_reserve(&candidate.to_uppercase(), false));
}

#[test]
fn staged_plan_moves_through_temporaries() {
    let actions = vec![
        RenameAction::new("a".to_string(), "b".to_string()),
        RenameAction::new("b".to_string(), "a".to_string()),
    ];
    let temps = vec!["t0".to_string(), "t1".to_string()];
    let plan = plan_move_actions(actions, Some(temps));
    let moves: Vec<(String, String)> = plan
        .iter()
        .map(|p| match p {
            PlannedAction::Action(Action::MoveFile { source, target }) => {
                (source.clone(), target.clone())
            },
            _ => panic!("expected a move"),
        })
        .collect();
    assert_eq!(
        moves,
        vec![
            ("a".to_string(), "t0".to_string()),
            ("b".to_string(), "t1".to_string()),
            ("t0".to_string(), "b".to_string()),
            ("t1".to_string(), "a".to_string()),
        ]
    );
}

#[test]
fn unstaged_plan_renames_directly() {
    let actions = vec![RenameAction::new("a".to_string(), "out/a".to_string())];
    let plan = plan_move_actions(actions, None);
    assert_eq!(plan.len(), 1);
    assert!(matches!(&plan[0], PlannedAction::Rename(r) if r.source() == "a" && r.target() == "out/a"));
}

#[test]
fn unchanged_files_are_separated_from_renames() {
    let actions = vec![
        RenameAction::new("a.mp3".to_string(), "a.mp3".to_string()),
        RenameAction::new("b.mp3".to_string(), "out/b.mp3".to_string()),
        RenameAction::new("c.mp3".to_string(), "c.mp3".to_string()),
    ];
    let (moving, unchanged) = RenameAction::separate_unchanged_destinations(actions);
    assert_eq!(moving.len(), 1);
    assert_eq!(moving[0].source(), "b.mp3");
    assert_eq!(unchanged, vec!["a.mp3".to_string(), "c.mp3".to_string()]);
}

#[test]
fn temporary_paths_sit_next_to_their_source() {
    assert_eq!(StagedRenamePlanner::temporary_candidate_for("dir/a.mp3", 3, 1, 2), "dir/.tfmt-3-1-2");
    assert_eq!(StagedRenamePlanner::temporary_candidate_for("a.mp3", 3, 0, 0), ".tfmt-3-0-0");
}
