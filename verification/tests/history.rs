use tfmttools::action::Action;
use tfmttools::history::{
    ActionRecordMetadata, History, HistoryError, HistoryMode, LoadHistoryResult, Record,
    RecordState, TemplateMetadata,
};

fn metadata(run: &str) -> ActionRecordMetadata {
    ActionRecordMetadata::new(
        TemplateMetadata::FileOrName("simple".to_string()),
        vec!["x".to_string()],
        run.to_string(),
    )
}

fn mv(a: &str, b: &str) -> Vec<Action> {
    vec![Action::MoveFile { source: a.to_string(), target: b.to_string() }]
}

fn states(h: &History) -> Vec<RecordState> {
    h.records().iter().map(|r| r.state()).collect()
}

#[test]
fn pushed_records_get_positional_ids() {
    let mut h = History::new("history.json".to_string());
    assert!(h.is_empty());
    h.push_with_timestamp(mv("a", "b"), metadata("r1"), 10).unwrap();
    h.push_with_timestamp(mv("b", "c"), metadata("r2"), 20).unwrap();
    assert_eq!(h.records().len(), 2);
    assert_eq!(h.records()[0].id(), Some(0));
    assert_eq!(h.records()[1].id(), Some(1));
    assert_eq!(h.records()[1].timestamp(), 20);
    assert_eq!(h.records()[1].metadata().run_id(), "r2");
    assert_eq!(states(&h), vec![RecordState::Applied, RecordState::Applied]);
    let prev = h.get_previous_record().unwrap().unwrap();
    assert_eq!(prev.id(), Some(1));
}

#[test]
fn undo_list_is_most_recent_first_and_redo_list_oldest_first() {
    let mut h = History::new("h".to_string());
    h.push_with_timestamp(mv("a", "b"), metadata("r1"), 1).unwrap();
    h.push_with_timestamp(mv("b", "c"), metadata("r2"), 2).unwrap();
    h.push_with_timestamp(mv("c", "d"), metadata("r3"), 3).unwrap();

    let undo = h.get_n_records_to_undo(2).unwrap();
    assert_eq!(undo.iter().map(|r| r.id()).collect::<Vec<_>>(), vec![Some(2), Some(1)]);
    assert_eq!(h.get_all_records_to_undo().unwrap().len(), 3);
    assert!(h.get_all_records_to_redo().unwrap().is_empty());

    for rec in undo {
        h.set_record_state(rec, RecordState::Undone).unwrap();
    }
    let redo = h.get_all_records_to_redo().unwrap();
    assert_eq!(redo.iter().map(|r| r.id()).collect::<Vec<_>>(), vec![Some(1), Some(2)]);
    assert_eq!(h.get_n_records_to_redo(1).unwrap().len(), 1);
    assert_eq!(h.get_records_to_undo(None).unwrap().len(), 1);
}

#[test]
fn a_new_run_supersedes_undone_runs() {
    let mut h = History::new("h".to_string());
    h.push_with_timestamp(mv("a", "b"), metadata("r1"), 1).unwrap();
    h.push_with_timestamp(mv("b", "c"), metadata("r2"), 2).unwrap();
    let last = h.get_n_records_to_undo(1).unwrap().pop().unwrap();
    let returned = h.set_record_state(last, RecordState::Undone).unwrap();
    assert_eq!(returned.state(), RecordState::Undone);
    assert_eq!(states(&h), vec![RecordState::Applied, RecordState::Undone]);

    h.push_with_timestamp(mv("x", "y"), metadata("r3"), 3).unwrap();
    assert_eq!(
        states(&h),
        vec![RecordState::Applied, RecordState::Superseded, RecordState::Applied]
    );
    assert!(h.get_all_records_to_redo().unwrap().is_empty());
    assert_eq!(h.get_n_records_to_undo(1).unwrap()[0].id(), Some(2));
}

#[test]
fn push_stamps_the_current_time() {
    let mut h = History::new("h".to_string());
    h.push(mv("a", "b"), metadata("r1")).unwrap();
    assert_eq!(h.records().len(), 1);
    assert!(h.records()[0].timestamp() > 1_600_000_000);
}

#[test]
fn setting_the_state_of_unknown_records_fails() {
    let mut h = History::new("h".to_string());
    let unsaved = Record::with_timestamp(mv("a", "b"), metadata("r"), 0);
    match h.set_record_state(unsaved, RecordState::Undone) {
        Err(HistoryError::MutError(m)) => assert_eq!(m, "Unable to set the state of unsaved record."),
        _ => panic!("expected an error"),
    }
    let missing = Record::from_parts(Some(4), RecordState::Applied, mv("a", "b"), metadata("r"), 0);
    match h.set_record_state(missing, RecordState::Undone) {
        Err(HistoryError::MutError(m)) => assert_eq!(m, "Unable to find saved record with id 4"),
        _ => panic!("expected an error"),
    }
    let dup = vec![
        Record::from_parts(Some(0), RecordState::Applied, mv("a", "b"), metadata("r"), 0),
        Record::from_parts(Some(0), RecordState::Applied, mv("b", "c"), metadata("r"), 0),
    ];
    let mut h = History::from_records("h".to_string(), dup);
    let rec = Record::from_parts(Some(0), RecordState::Applied, vec![], metadata("r"), 0);
    match h.set_record_state(rec, RecordState::Undone) {
        Err(HistoryError::MutError(m)) => assert_eq!(m, "Found multiple saved records with id 0"),
        _ => panic!("expected an error"),
    }
    assert_eq!(states(&h), vec![RecordState::Applied, RecordState::Applied]);
}

#[test]
fn clearing_removes_every_record() {
    let mut h = History::new("h".to_string());
    h.push_with_timestamp(mv("a", "b"), metadata("r1"), 1).unwrap();
    h.clear_records();
    assert!(h.is_empty());
    assert!(h.get_previous_record().unwrap().is_none());
    assert_eq!(h.path(), "h");
}

#[test]
fn load_and_save_decisions() {
    let h = History::new("/cfg/history.json".to_string());
    assert!(matches!(h.load_decision(true, true), Ok(LoadHistoryResult::Loaded)));
    assert!(matches!(h.load_decision(false, false), Ok(LoadHistoryResult::New)));
    match h.load_decision(false, true) {
        Err(HistoryError::LoadError(m)) => assert_eq!(m, "/cfg/history.json exists but is not a file."),
        _ => panic!("expected an error"),
    }
    let t = h.save_target(true, true, Some("/tmp")).unwrap();
    assert_eq!(t.write_to, "/cfg/history.json");
    assert!(t.error.is_none());
    let t = h.save_target(false, true, Some("/tmp")).unwrap();
    assert_eq!(t.write_to, "/tmp/history.json");
    assert!(matches!(t.error, Some(HistoryError::SaveErrorWithBackup(_, ref p)) if p == "/tmp/history.json"));
    assert!(matches!(h.save_target(false, true, None), Err(HistoryError::SaveError(_))));
    let odd = History::new("/".to_string());
    assert!(odd.checked_save_target(false, true, Some("/tmp")).is_none());
    assert!(odd.checked_save_target(true, true, Some("/tmp")).is_some());
}

#[test]
fn history_modes_name_their_verb() {
    assert_eq!(HistoryMode::Undo.verb(), "undo");
    assert_eq!(HistoryMode::Redo.verb_capitalized(), "Redo");
}
