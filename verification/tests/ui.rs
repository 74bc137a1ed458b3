use tfmttools::action::Action;
use tfmttools::formatter::{prefix_lines, shown_date, HistoryFormat, HistoryFormatter, HistoryPrefix, RecordSummary};
use tfmttools::history::{ActionRecordMetadata, History, Record, RecordState, TemplateMetadata};
use tfmttools::ui::{ConfirmationPrompt, ItemName, ParsePreviewListSizeError, PreviewList, PreviewListSize};

#[test]
fn item_names_pick_singular_or_plural() {
    let file = ItemName::simple("file");
    assert_eq!(file.by_amount(1), "file");
    assert_eq!(file.by_amount(0), "files");
    assert_eq!(file.by_amount(3), "files");
    let dir = ItemName::new("directory", "directories");
    assert_eq!(dir.by_amount(2), "directories");
    assert_eq!(ItemName::default().by_amount(2), "items");
}

#[test]
fn list_sizes_follow_the_terminal() {
    assert_eq!(PreviewListSize::new(10), PreviewListSize::Small);
    assert_eq!(PreviewListSize::new(24), PreviewListSize::Medium);
    assert_eq!(PreviewListSize::new(36), PreviewListSize::Large);
    assert_eq!(PreviewListSize::Small.preview_amount(), 8);
    assert_eq!(PreviewListSize::Medium.preview_amount(), 12);
    assert_eq!(PreviewListSize::Large.preview_amount(), 16);
}

#[test]
fn list_sizes_parse_ignoring_case() {
    assert_eq!(PreviewListSize::parse("SM"), Ok(PreviewListSize::Small));
    assert_eq!("medium".parse::<PreviewListSize>(), Ok(PreviewListSize::Medium));
    assert_eq!(PreviewListSize::parse("l"), Ok(PreviewListSize::Large));
    assert_eq!(PreviewListSize::parse("huge"), Err(ParsePreviewListSizeError));
    assert_eq!(ParsePreviewListSizeError.message(), "Valid options: small, medium, large");
}

fn items(n: usize) -> Vec<String> {
    (0..n).map(|i| format!("item{i}")).collect()
}

#[test]
fn a_short_list_is_previewed_whole() {
    let list = PreviewList::new(items(3), PreviewListSize::Small).with_item_name(ItemName::simple("file"));
    assert!(list.can_preview_all());
    assert_eq!(list.title(), "Previewing 3 files");
    assert_eq!(list.render(&[]), "1) item0\n2) item1\n3) item2\n");
}

#[test]
fn a_long_list_shows_its_sample() {
    let list = PreviewList::new(items(10), PreviewListSize::Small);
    assert!(!list.can_preview_all());
    assert_eq!(list.preview_amount(), 8);
    assert_eq!(list.total(), 10);
    assert_eq!(list.title(), "Previewing 8 of 10 items");
    assert_eq!(list.render(&[0, 9]), " 1) item0\n10) item9\n");
}

#[test]
fn confirmation_answers() {
    let p = ConfirmationPrompt::new("Continue?");
    assert_eq!(p.prompt_text(), "Continue?");
    assert_eq!(p.get_options(), "(y/N)");
    assert_eq!(p.interpret_answer(" Yes "), Some(true));
    assert_eq!(p.interpret_answer("n"), Some(false));
    assert_eq!(p.interpret_answer(""), Some(false));
    assert_eq!(p.interpret_answer("maybe"), None);
    assert_eq!(ConfirmationPrompt::required_prompt(), "Please enter 'y' or 'n'");
}

fn record(id: usize, state: RecordState, actions: Vec<Action>) -> Record {
    Record::from_parts(
        Some(id),
        state,
        actions,
        ActionRecordMetadata::new(
            TemplateMetadata::FileOrName("simple".to_string()),
            vec!["a".to_string(), "b".to_string()],
            format!("run{id}"),
        ),
        0,
    )
}

fn sample_actions() -> Vec<Action> {
    vec![
        Action::MakeDir("out".to_string()),
        Action::MoveFile { source: "a".to_string(), target: "out/a".to_string() },
        Action::MoveFile { source: "b".to_string(), target: "out/b".to_string() },
        Action::CopyFile { source: "c".to_string(), target: "out/c".to_string() },
    ]
}

#[test]
fn record_summaries_count_actions() {
    let rec = record(0, RecordState::Applied, sample_actions());
    let summary = RecordSummary::from_record(&rec);
    assert_eq!(summary.run_id(), "run0");
    assert_eq!(summary.text(), "1 directory created, 2 files moved, 1 file copied");
}

#[test]
fn records_are_formatted_with_their_date() {
    let rec = record(0, RecordState::Applied, sample_actions());
    let normal = HistoryFormatter::new();
    assert_eq!(
        normal.format_record_with_date(&rec, "2024-01-02 03:04:05"),
        "2024-01-02 03:04:05 [#run0] (1 directory created, 2 files moved, 1 file copied)"
    );
    let verbose = HistoryFormatter::new().with_format(HistoryFormat::Verbose);
    assert_eq!(
        verbose.format_record_with_date(&rec, "D"),
        "┌ D [#run0] (1 directory created, 2 files moved, 1 file copied)\n└── 'simple' => 'a b'"
    );
    assert_eq!(
        HistoryFormatter::format_template_name(&TemplateMetadata::Script("x".to_string())),
        "script"
    );
}

#[test]
fn entries_are_numbered_and_indented() {
    assert_eq!(HistoryPrefix::Ordered('.').format(0, 12), " 1. ");
    assert_eq!(prefix_lines("a\nb", "1. "), "1. a\n   b");
    let rec = record(0, RecordState::Applied, vec![]);
    let f = HistoryFormatter::new().with_prefix(HistoryPrefix::Ordered(')'));
    assert_eq!(f.format_record_entry_with_date(&rec, "D", 0, 1), "1) D [#run0] ()");
    let recs = vec![rec, record(1, RecordState::Applied, vec![])];
    let text = f.format_records_with_dates(&recs, &["D".to_string(), "E".to_string()]).unwrap();
    assert_eq!(text, "1) D [#run0] ()\n2) E [#run1] ()");
    assert!(f.format_records_with_dates(&[], &[]).is_none());
    assert!(f.format_records(&[]).is_none());
}

#[test]
fn history_text_lists_undo_and_redo() {
    let h = History::from_records(
        "h".to_string(),
        vec![record(0, RecordState::Applied, vec![]), record(1, RecordState::Undone, vec![])],
    );
    let f = HistoryFormatter::new();
    let text = f.format_history_with_dates(&h, &["D".to_string()], &["E".to_string()]).unwrap();
    assert!(text.contains("D [#run0] ()"));
    assert!(text.contains("E [#run1] ()"));
    assert!(f.format_history(&h).is_ok());
    assert!(f.format_record(&h.records()[0]).contains("[#run0]"));
}

#[test]
fn shown_date_falls_back_to_a_question_mark() {
    assert_eq!(shown_date(Some("2024-01-02 03:04:05".to_owned())), "2024-01-02 03:04:05");
    assert_eq!(shown_date(None), "?");
}

#[test]
fn preview_list_size_from_str_parses_like_parse() {
    assert_eq!("SM".parse::<PreviewListSize>(), Ok(PreviewListSize::Small));
    assert_eq!("large".parse::<PreviewListSize>(), Ok(PreviewListSize::Large));
    assert!("huge".parse::<PreviewListSize>().is_err());
}

#[test]
fn ordered_lists_align_markers_and_indent_later_lines() {
    assert_eq!(HistoryPrefix::Ordered(')').format(0, 10), " 1) ");
    assert_eq!(HistoryPrefix::Ordered(')').format(9, 10), "10) ");
    let f = HistoryFormatter::new().with_format(HistoryFormat::Verbose).with_prefix(HistoryPrefix::Ordered(')'));
    let recs: Vec<Record> = (0..10).map(|i| record(i, RecordState::Applied, vec![])).collect();
    let dates: Vec<String> = (0..10).map(|i| format!("D{i}")).collect();
    let text = f.format_records_with_dates(&recs, &dates).unwrap();
    let lines: Vec<&str> = text.lines().collect();
    assert_eq!(lines.len(), 20);
    assert!(lines[0].starts_with(" 1) ┌ D0 [#run0]"));
    assert!(lines[1].starts_with("    └── "));
    assert!(lines[18].starts_with("10) ┌ D9 [#run9]"));
    assert!(lines[19].starts_with("    └── "));
}

#[test]
fn a_formatted_record_starts_with_a_local_date() {
    let text = HistoryFormatter::new().format_record(&record(0, RecordState::Applied, vec![]));
    let (date, rest) = text.split_at(text.find(" [#").unwrap());
    assert_eq!(rest, " [#run0] ()");
    let chars: Vec<char> = date.chars().collect();
    let n = chars.len();
    assert!(n >= 19, "{date}");
    for (offset, sep) in [(15, '-'), (12, '-'), (9, ' '), (6, ':'), (3, ':')] {
        assert_eq!(chars[n - offset], sep, "{date}");
    }
    assert!(chars[..n - 15].iter().all(|c| c.is_ascii_digit()), "{date}");
}
