//! The run history: every rename run is a record that can be undone and
//! redone; a new run supersedes the runs that were undone before it.

use crate::action::{Action, ActionView};
use crate::paths::{file_name, join, utf8_file_name, utf8_join};
use crate::text::{decimal_spec, push_all, push_str, string_from_chars, usize_to_decimal};
use vstd::prelude::*;

verus! {

/// Whether a command undoes or redoes runs.
#[derive(Debug, Clone, Copy, PartialEq, Eq)]
pub enum HistoryMode {
    Undo,
    Redo,
}

impl HistoryMode {
    /// `undo` or `redo`.
    pub fn verb(&self) -> (r: &'static str)
        ensures
            *self == HistoryMode::Undo ==> r@ == "undo"@,
            *self == HistoryMode::Redo ==> r@ == "redo"@,
    {
        match self {
            HistoryMode::Undo => "undo",
            HistoryMode::Redo => "redo",
        }
    }

    /// `Undo` or `Redo`.
    pub fn verb_capitalized(&self) -> (r: &'static str)
        ensures
            *self == HistoryMode::Undo ==> r@ == "Undo"@,
            *self == HistoryMode::Redo ==> r@ == "Redo"@,
    {
        match self {
            HistoryMode::Undo => "Undo",
            HistoryMode::Redo => "Redo",
        }
    }
}

/// Whether a history was read from disk or started empty.
#[derive(Debug, Clone, Copy, PartialEq, Eq)]
pub enum LoadHistoryResult {
    Loaded,
    New,
}

/// The state of a recorded run.
#[derive(Debug, Clone, Copy, PartialEq, Eq, Structural)]
pub enum RecordState {
    Applied,
    Undone,
    Redone,
    Superseded,
}

/// Errors of the history.
#[derive(Debug)]
pub enum HistoryError {
    LoadError(String),
    SaveError(String),
    SaveErrorWithBackup(String, String),
    MutError(String),
    RemoveError(String),
}

/// Mathematical view of a [`HistoryError`].
pub enum HistoryErrorView {
    LoadError(Seq<char>),
    SaveError(Seq<char>),
    SaveErrorWithBackup(Seq<char>, Seq<char>),
    MutError(Seq<char>),
    RemoveError(Seq<char>),
}

impl View for HistoryError {
    type V = HistoryErrorView;

    open spec fn view(&self) -> HistoryErrorView {
        match self {
            HistoryError::LoadError(s) => HistoryErrorView::LoadError(s@),
            HistoryError::SaveError(s) => HistoryErrorView::SaveError(s@),
            HistoryError::SaveErrorWithBackup(s, p) => HistoryErrorView::SaveErrorWithBackup(s@, p@),
            HistoryError::MutError(s) => HistoryErrorView::MutError(s@),
            HistoryError::RemoveError(s) => HistoryErrorView::RemoveError(s@),
        }
    }
}

/// Which template a run used.
#[derive(Debug)]
pub enum TemplateMetadata {
    FileOrName(String),
    Script(String),
}

/// Mathematical view of a [`TemplateMetadata`].
pub enum TemplateMetadataView {
    FileOrName(Seq<char>),
    Script(Seq<char>),
}

impl View for TemplateMetadata {
    type V = TemplateMetadataView;

    open spec fn view(&self) -> TemplateMetadataView {
        match self {
            TemplateMetadata::FileOrName(s) => TemplateMetadataView::FileOrName(s@),
            TemplateMetadata::Script(s) => TemplateMetadataView::Script(s@),
        }
    }
}

impl Clone for TemplateMetadata {
    fn clone(&self) -> (r: Self)
        ensures
            r@ == self@,
    {
        match self {
            TemplateMetadata::FileOrName(s) => TemplateMetadata::FileOrName(s.clone()),
            TemplateMetadata::Script(s) => TemplateMetadata::Script(s.clone()),
        }
    }
}

/// The views of a sequence of strings.
pub open spec fn string_views(v: Seq<String>) -> Seq<Seq<char>> {
    v.map_values(|s: String| s@)
}

fn clone_strings(v: &Vec<String>) -> (r: Vec<String>)
    ensures
        string_views(r@) == string_views(v@),
{
    let mut r: Vec<String> = Vec::new();
    let mut i: usize = 0;
    while i < v.len()
        invariant
            i <= v.len(),
            r@.len() == i,
            forall|j: int| 0 <= j < i ==> (#[trigger] r@[j])@ == v@[j]@,
        decreases v.len() - i,
    {
        r.push(v[i].clone());
        i = i + 1;
    }
    assert(string_views(r@) =~= string_views(v@));
    r
}

/// What a run records besides its actions: the template, the arguments
/// and the run's identifier.
#[derive(Debug)]
pub struct ActionRecordMetadata {
    template: TemplateMetadata,
    arguments: Vec<String>,
    run_id: String,
}

/// Mathematical view of an [`ActionRecordMetadata`].
pub struct ActionRecordMetadataView {
    pub template: TemplateMetadataView,
    pub arguments: Seq<Seq<char>>,
    pub run_id: Seq<char>,
}

impl View for ActionRecordMetadata {
    type V = ActionRecordMetadataView;

    closed spec fn view(&self) -> ActionRecordMetadataView {
        ActionRecordMetadataView {
            template: self.template@,
            arguments: string_views(self.arguments@),
            run_id: self.run_id@,
        }
    }
}

impl Clone for ActionRecordMetadata {
    fn clone(&self) -> (r: Self)
        ensures
            r@ == self@,
    {
        ActionRecordMetadata {
            template: self.template.clone(),
            arguments: clone_strings(&self.arguments),
            run_id: self.run_id.clone(),
        }
    }
}

impl ActionRecordMetadata {
    pub fn new(template: TemplateMetadata, arguments: Vec<String>, run_id: String) -> (r: Self)
        ensures
            r@ == (ActionRecordMetadataView {
                template: template@,
                arguments: string_views(arguments@),
                run_id: run_id@,
            }),
    {
        ActionRecordMetadata { template, arguments, run_id }
    }

    pub fn template(&self) -> (r: &TemplateMetadata)
        ensures
            r@ == self@.template,
    {
        &self.template
    }

    pub fn arguments(&self) -> (r: &[String])
        ensures
            string_views(r@) == self@.arguments,
    {
        self.arguments.as_slice()
    }

    pub fn run_id(&self) -> (r: &str)
        ensures
            r@ == self@.run_id,
    {
        self.run_id.as_str()
    }
}

/// The views of a sequence of actions.
pub open spec fn action_list_views(v: Seq<Action>) -> Seq<ActionView> {
    v.map_values(|a: Action| a@)
}

fn clone_actions(v: &Vec<Action>) -> (r: Vec<Action>)
    ensures
        action_list_views(r@) == action_list_views(v@),
{
    let mut r: Vec<Action> = Vec::new();
    let mut i: usize = 0;
    while i < v.len()
        invariant
            i <= v.len(),
            r@.len() == i,
            forall|j: int| 0 <= j < i ==> (#[trigger] r@[j])@ == v@[j]@,
        decreases v.len() - i,
    {
        r.push(v[i].clone());
        i = i + 1;
    }
    assert(action_list_views(r@) =~= action_list_views(v@));
    r
}

/// The seconds since the Unix epoch, as the system clock tells them.
#[verifier::external_body]
fn now_timestamp() -> i64 {
    chrono::Utc::now().timestamp()
}

/// One recorded run.
#[derive(Debug)]
pub struct Record {
    id: Option<usize>,
    state: RecordState,
    actions: Vec<Action>,
    metadata: ActionRecordMetadata,
    timestamp: i64,
}

/// Mathematical view of a [`Record`].
pub struct RecordView {
    pub id: Option<nat>,
    pub state: RecordState,
    pub actions: Seq<ActionView>,
    pub metadata: ActionRecordMetadataView,
    pub timestamp: int,
}

pub open spec fn opt_usize_view(o: Option<usize>) -> Option<nat> {
    match o {
        Some(i) => Some(i as nat),
        None => None,
    }
}

impl View for Record {
    type V = RecordView;

    closed spec fn view(&self) -> RecordView {
        RecordView {
            id: opt_usize_view(self.id),
            state: self.state,
            actions: action_list_views(self.actions@),
            metadata: self.metadata@,
            timestamp: self.timestamp as int,
        }
    }
}

impl Clone for Record {
    fn clone(&self) -> (r: Self)
        ensures
            r@ == self@,
    {
        Record {
            id: self.id,
            state: self.state,
            actions: clone_actions(&self.actions),
            metadata: self.metadata.clone(),
            timestamp: self.timestamp,
        }
    }
}

impl Record {
    /// A new, unsaved record of an applied run, stamped with the current time.
    pub fn new(actions: Vec<Action>, metadata: ActionRecordMetadata) -> (r: Self)
        ensures
            r@.id is None,
            r@.state == RecordState::Applied,
            r@.actions == action_list_views(actions@),
            r@.metadata == metadata@,
    {
        let timestamp = now_timestamp();
        Record::with_timestamp(actions, metadata, timestamp)
    }

    /// A new, unsaved record of an applied run with the given time stamp.
    pub fn with_timestamp(actions: Vec<Action>, metadata: ActionRecordMetadata, timestamp: i64) -> (r:
        Self)
        ensures
            r@ == (RecordView {
                id: None,
                state: RecordState::Applied,
                actions: action_list_views(actions@),
                metadata: metadata@,
                timestamp: timestamp as int,
            }),
    {
        Record { id: None, state: RecordState::Applied, actions, metadata, timestamp }
    }

    /// A record as it was saved.
    pub fn from_parts(
        id: Option<usize>,
        state: RecordState,
        actions: Vec<Action>,
        metadata: ActionRecordMetadata,
        timestamp: i64,
    ) -> (r: Self)
        ensures
            r@ == (RecordView {
                id: opt_usize_view(id),
                state: state,
                actions: action_list_views(actions@),
                metadata: metadata@,
                timestamp: timestamp as int,
            }),
    {
        Record { id, state, actions, metadata, timestamp }
    }

    pub fn id(&self) -> (r: Option<usize>)
        ensures
            opt_usize_view(r) == self@.id,
    {
        self.id
    }

    pub fn state(&self) -> (r: RecordState)
        ensures
            r == self@.state,
    {
        self.state
    }

    pub fn set_state(&mut self, state: RecordState)
        ensures
            final(self)@ == (RecordView { state: state, ..old(self)@ }),
    {
        self.state = state;
    }

    pub fn actions(&self) -> (r: &[Action])
        ensures
            action_list_views(r@) == self@.actions,
    {
        self.actions.as_slice()
    }

    pub fn metadata(&self) -> (r: &ActionRecordMetadata)
        ensures
            r@ == self@.metadata,
    {
        &self.metadata
    }

    pub fn timestamp(&self) -> (r: i64)
        ensures
            r as int == self@.timestamp,
    {
        self.timestamp
    }
}


/// Whether a run in this state can be undone.
pub open spec fn is_undoable(state: RecordState) -> bool {
    state == RecordState::Applied || state == RecordState::Redone
}

/// The runs that can be undone, most recent first.
pub open spec fn undo_list(recs: Seq<RecordView>) -> Seq<RecordView>
    decreases recs.len(),
{
    if recs.len() == 0 {
        seq![]
    } else {
        (if is_undoable(recs.last().state) {
            seq![recs.last()]
        } else {
            seq![]
        }) + undo_list(recs.drop_last())
    }
}

/// The runs that can be redone, oldest first.
pub open spec fn redo_list(recs: Seq<RecordView>) -> Seq<RecordView>
    decreases recs.len(),
{
    if recs.len() == 0 {
        seq![]
    } else if recs.last().state == RecordState::Undone {
        redo_list(recs.drop_last()).push(recs.last())
    } else {
        redo_list(recs.drop_last())
    }
}

/// At most `amount` items of `s` (all of them without a limit).
pub open spec fn take_opt<T>(s: Seq<T>, amount: Option<usize>) -> Seq<T> {
    match amount {
        Some(n) => if n < s.len() {
            s.take(n as int)
        } else {
            s
        },
        None => s,
    }
}

/// How many records carry the identifier `id`.
pub open spec fn id_count(recs: Seq<RecordView>, id: nat) -> nat
    decreases recs.len(),
{
    if recs.len() == 0 {
        0
    } else {
        id_count(recs.drop_last(), id) + if recs.last().id == Some(id) {
            1nat
        } else {
            0nat
        }
    }
}

/// The records with the state of those carrying `id` set to `state`.
pub open spec fn with_state(recs: Seq<RecordView>, id: nat, state: RecordState) -> Seq<RecordView> {
    Seq::new(
        recs.len(),
        |j: int|
            if recs[j].id == Some(id) {
                RecordView { state: state, ..recs[j] }
            } else {
                recs[j]
            },
    )
}

pub open spec fn unsaved_record_message() -> Seq<char> {
    "Unable to set the state of unsaved record."@
}

pub open spec fn record_not_found_message(id: nat) -> Seq<char> {
    "Unable to find saved record with id "@ + decimal_spec(id)
}

pub open spec fn duplicate_record_message(id: nat) -> Seq<char> {
    "Found multiple saved records with id "@ + decimal_spec(id)
}

/// Why the state of a record with identifier `id` cannot be set in `recs`.
pub open spec fn set_state_error(recs: Seq<RecordView>, id: Option<nat>) -> Option<HistoryErrorView> {
    match id {
        None => Some(HistoryErrorView::MutError(unsaved_record_message())),
        Some(i) => if id_count(recs, i) == 0 {
            Some(HistoryErrorView::MutError(record_not_found_message(i)))
        } else if id_count(recs, i) > 1 {
            Some(HistoryErrorView::MutError(duplicate_record_message(i)))
        } else {
            None
        },
    }
}

/// The records after marking each of `undone` (in order) superseded, and
/// the first error met.
pub open spec fn supersede_all(recs: Seq<RecordView>, undone: Seq<RecordView>) -> (
    Seq<RecordView>,
    Option<HistoryErrorView>,
)
    decreases undone.len(),
{
    if undone.len() == 0 {
        (recs, None)
    } else {
        match set_state_error(recs, undone[0].id) {
            Some(e) => (recs, Some(e)),
            None => supersede_all(
                with_state(recs, undone[0].id->0, RecordState::Superseded),
                undone.drop_first(),
            ),
        }
    }
}

/// The records after pushing a run (stamped `ts`) and the error, if any.
pub open spec fn push_spec(
    recs: Seq<RecordView>,
    actions: Seq<ActionView>,
    metadata: ActionRecordMetadataView,
    ts: int,
) -> (Seq<RecordView>, Option<HistoryErrorView>) {
    let rec = RecordView {
        id: Some(recs.len()),
        state: RecordState::Applied,
        actions: actions,
        metadata: metadata,
        timestamp: ts,
    };
    supersede_all(recs.push(rec), redo_list(recs.push(rec)))
}

/// Every record's identifier is its position.
pub open spec fn ids_are_positions(recs: Seq<RecordView>) -> bool {
    forall|j: int| 0 <= j < recs.len() ==> (#[trigger] recs[j]).id == Some(j as nat)
}

pub open spec fn record_views(v: Seq<Record>) -> Seq<RecordView> {
    v.map_values(|r: Record| r@)
}

pub open spec fn error_view_of<T>(r: Result<T, HistoryError>) -> Option<HistoryErrorView> {
    match r {
        Ok(_) => None,
        Err(e) => Some(e@),
    }
}

/// The history of rename runs, kept in a file at `path`.
#[derive(Debug)]
pub struct History {
    path: String,
    records: Vec<Record>,
}

/// Mathematical view of a [`History`].
pub struct HistoryView {
    pub path: Seq<char>,
    pub records: Seq<RecordView>,
}

impl View for History {
    type V = HistoryView;

    closed spec fn view(&self) -> HistoryView {
        HistoryView { path: self.path@, records: record_views(self.records@) }
    }
}

fn mut_error(prefix: &str, id: usize) -> (e: HistoryError)
    ensures
        e@ == HistoryErrorView::MutError(prefix@ + decimal_spec(id as nat)),
{
    let mut out: Vec<char> = Vec::new();
    push_str(&mut out, prefix);
    let d = usize_to_decimal(id);
    push_all(&mut out, &d);
    HistoryError::MutError(string_from_chars(out.as_slice()))
}

impl History {
    /// An empty history kept at `path`.
    pub fn new(path: String) -> (r: Self)
        ensures
            r@.path == path@,
            r@.records.len() == 0,
    {
        let r = History { path, records: Vec::new() };
        assert(record_views(r.records@) =~= Seq::<RecordView>::empty());
        r
    }

    /// A history holding the records read from its file.
    pub fn from_records(path: String, records: Vec<Record>) -> (r: Self)
        ensures
            r@.path == path@,
            r@.records == record_views(records@),
    {
        History { path, records }
    }

    pub fn path(&self) -> (r: &str)
        ensures
            r@ == self@.path,
    {
        self.path.as_str()
    }

    /// All records, oldest first.
    pub fn records(&self) -> (r: &[Record])
        ensures
            record_views(r@) == self@.records,
    {
        self.records.as_slice()
    }

    pub fn is_empty(&self) -> (r: bool)
        ensures
            r == (self@.records.len() == 0),
    {
        self.records.len() == 0
    }

    /// Forgets all records (the file itself is removed by the caller).
    pub fn clear_records(&mut self)
        ensures
            final(self)@.path == old(self)@.path,
            final(self)@.records.len() == 0,
    {
        self.records.clear();
        assert(record_views(self.records@) =~= Seq::<RecordView>::empty());
    }

    /// The most recent record.
    pub fn get_previous_record(&self) -> (r: Result<Option<Record>, HistoryError>)
        ensures
            r matches Ok(o) && (match o {
                Some(rec) => self@.records.len() > 0 && rec@ == self@.records.last(),
                None => self@.records.len() == 0,
            }),
    {
        let n = self.records.len();
        if n == 0 {
            Ok(None)
        } else {
            assert(self@.records[n - 1] == self.records@[n - 1]@);
            Ok(Some(self.records[n - 1].clone()))
        }
    }

    /// The records that can be undone, most recent first, at most `amount`
    /// of them.
    pub fn get_records_to_undo(&self, amount: Option<usize>) -> (r: Result<Vec<Record>, HistoryError>)
        ensures
            r matches Ok(v) && record_views(v@) == take_opt(undo_list(self@.records), amount),
    {
        let ghost recs = self@.records;
        let mut out: Vec<Record> = Vec::new();
        let mut i: usize = 0;
        while i < self.records.len()
            invariant
                i <= self.records@.len(),
                recs == record_views(self.records@),
                record_views(out@) == undo_list(recs.take(i as int)),
            decreases self.records.len() - i,
        {
            assert(recs.take(i + 1).drop_last() =~= recs.take(i as int));
            assert(recs.take(i + 1).last() == self.records@[i as int]@);
            let st = self.records[i].state();
            if st == RecordState::Applied || st == RecordState::Redone {
                let ghost before = record_views(out@);
                let c = self.records[i].clone();
                out.insert(0, c);
                assert(record_views(out@) =~= seq![self.records@[i as int]@] + before);
            }
            i = i + 1;
        }
        assert(recs.take(self.records.len() as int) =~= recs);
        match amount {
            Some(n) => {
                if n < out.len() {
                    let ghost full = record_views(out@);
                    out.truncate(n);
                    assert(record_views(out@) =~= full.take(n as int));
                }
            },
            None => {},
        }
        Ok(out)
    }

    /// The records that can be redone, oldest first, at most `amount` of
    /// them.
    pub fn get_records_to_redo(&self, amount: Option<usize>) -> (r: Result<Vec<Record>, HistoryError>)
        ensures
            r matches Ok(v) && record_views(v@) == take_opt(redo_list(self@.records), amount),
    {
        let ghost recs = self@.records;
        let mut out: Vec<Record> = Vec::new();
        let mut i: usize = 0;
        while i < self.records.len()
            invariant
                i <= self.records@.len(),
                recs == record_views(self.records@),
                record_views(out@) == redo_list(recs.take(i as int)),
            decreases self.records.len() - i,
        {
            assert(recs.take(i + 1).drop_last() =~= recs.take(i as int));
            assert(recs.take(i + 1).last() == self.records@[i as int]@);
            if self.records[i].state() == RecordState::Undone {
                let ghost before = record_views(out@);
                out.push(self.records[i].clone());
                assert(record_views(out@) =~= before.push(self.records@[i as int]@));
            }
            i = i + 1;
        }
        assert(recs.take(self.records.len() as int) =~= recs);
        match amount {
            Some(n) => {
                if n < out.len() {
                    let ghost full = record_views(out@);
                    out.truncate(n);
                    assert(record_views(out@) =~= full.take(n as int));
                }
            },
            None => {},
        }
        Ok(out)
    }

    pub fn get_n_records_to_undo(&self, amount: usize) -> (r: Result<Vec<Record>, HistoryError>)
        ensures
            r matches Ok(v) && record_views(v@) == take_opt(undo_list(self@.records), Some(amount)),
    {
        self.get_records_to_undo(Some(amount))
    }

    pub fn get_n_records_to_redo(&self, amount: usize) -> (r: Result<Vec<Record>, HistoryError>)
        ensures
            r matches Ok(v) && record_views(v@) == take_opt(redo_list(self@.records), Some(amount)),
    {
        self.get_records_to_redo(Some(amount))
    }

    pub fn get_all_records_to_undo(&self) -> (r: Result<Vec<Record>, HistoryError>)
        ensures
            r matches Ok(v) && record_views(v@) == undo_list(self@.records),
    {
        self.get_records_to_undo(None)
    }

    pub fn get_all_records_to_redo(&self) -> (r: Result<Vec<Record>, HistoryError>)
        ensures
            r matches Ok(v) && record_views(v@) == redo_list(self@.records),
    {
        self.get_records_to_redo(None)
    }

    /// Sets the state of the saved record with `record`'s identifier (and
    /// of `record` itself, which is handed back). Fails for an unsaved
    /// record, or when no saved record or more than one carries the
    /// identifier; the history is then unchanged.
    pub fn set_record_state(&mut self, record: Record, state: RecordState) -> (r: Result<
        Record,
        HistoryError,
    >)
        ensures
            final(self)@.path == old(self)@.path,
            match set_state_error(old(self)@.records, record@.id) {
                Some(e) => r matches Err(err) && err@ == e && final(self)@.records == old(
                    self,
                )@.records,
                None => r matches Ok(rec) && rec@ == (RecordView { state: state, ..record@ })
                    && final(self)@.records == with_state(
                    old(self)@.records,
                    record@.id->0,
                    state,
                ),
            },
    {
        let mut record = record;
        let ghost recs = self@.records;
        let ghost path = self.path@;
        match record.id() {
            None => Err(HistoryError::MutError("Unable to set the state of unsaved record.".to_owned())),
            Some(id) => {
                let mut count: usize = 0;
                let mut i: usize = 0;
                while i < self.records.len()
                    invariant
                        i <= self.records@.len(),
                        recs == record_views(self.records@),
                        count as nat == id_count(recs.take(i as int), id as nat),
                        count <= i,
                    decreases self.records.len() - i,
                {
                    assert(recs.take(i + 1).drop_last() =~= recs.take(i as int));
                    assert(recs.take(i + 1).last() == self.records@[i as int]@);
                    match self.records[i].id() {
                        Some(other) => {
                            if other == id {
                                count = count + 1;
                            }
                        },
                        None => {},
                    }
                    i = i + 1;
                }
                assert(recs.take(self.records.len() as int) =~= recs);
                if count == 0 {
                    Err(mut_error("Unable to find saved record with id ", id))
                } else if count > 1 {
                    Err(mut_error("Found multiple saved records with id ", id))
                } else {
                    record.set_state(state);
                    let mut j: usize = 0;
                    while j < self.records.len()
                        invariant
                            j <= self.records@.len(),
                            self.path@ == path,
                            self.records@.len() == recs.len(),
                            forall|k: int|
                                0 <= k < j ==> (#[trigger] self.records@[k])@ == with_state(
                                    recs,
                                    id as nat,
                                    state,
                                )[k],
                            forall|k: int|
                                j <= k < self.records@.len() ==> (#[trigger] self.records@[k])@
                                    == recs[k],
                        decreases self.records.len() - j,
                    {
                        let matches = match self.records[j].id() {
                            Some(other) => other == id,
                            None => false,
                        };
                        if matches {
                            let mut c = self.records[j].clone();
                            c.set_state(state);
                            self.records.set(j, c);
                        }
                        j = j + 1;
                    }
                    assert(record_views(self.records@) =~= with_state(recs, id as nat, state));
                    Ok(record)
                }
            },
        }
    }

    /// Records a new applied run stamped with the current time: it gets the
    /// next identifier, and every undone run is marked superseded, so it
    /// can no longer be redone.
    pub fn push(&mut self, actions: Vec<Action>, metadata: ActionRecordMetadata) -> (r: Result<
        (),
        HistoryError,
    >)
        ensures
            final(self)@.path == old(self)@.path,
            exists|ts: int|
                #[trigger] push_spec(old(self)@.records, action_list_views(actions@), metadata@, ts)
                    == (final(self)@.records, error_view_of(r)),
    {
        let timestamp = now_timestamp();
        let ghost acts = action_list_views(actions@);
        let ghost meta = metadata@;
        let r = self.push_with_timestamp(actions, metadata, timestamp);
        assert(push_spec(old(self)@.records, acts, meta, timestamp as int) == (
            self@.records,
            error_view_of(r),
        ));
        r
    }

    /// [`History::push`] with the given time stamp.
    pub fn push_with_timestamp(
        &mut self,
        actions: Vec<Action>,
        metadata: ActionRecordMetadata,
        timestamp: i64,
    ) -> (r: Result<(), HistoryError>)
        ensures
            final(self)@.path == old(self)@.path,
            push_spec(old(self)@.records, action_list_views(actions@), metadata@, timestamp as int)
                == (final(self)@.records, error_view_of(r)),
    {
        let ghost path = self.path@;
        let ghost old_recs = self@.records;
        let mut rec = Record::with_timestamp(actions, metadata, timestamp);
        rec.id = Some(self.records.len());
        let ghost rv = rec@;
        self.records.push(rec);
        let ghost recs1 = self@.records;
        assert(recs1 =~= old_recs.push(rv));
        let undone = match self.get_all_records_to_redo() {
            Ok(v) => v,
            Err(e) => {
                return Err(e);
            },
        };
        let ghost u = record_views(undone@);
        assert(u.skip(0) =~= u);
        let mut k: usize = 0;
        while k < undone.len()
            invariant
                k <= undone@.len(),
                u == record_views(undone@),
                u == redo_list(recs1),
                recs1 == old_recs.push(rv),
                old_recs == old(self)@.records,
                path == old(self)@.path,
                rv == (RecordView {
                    id: Some(old_recs.len()),
                    state: RecordState::Applied,
                    actions: action_list_views(actions@),
                    metadata: metadata@,
                    timestamp: timestamp as int,
                }),
                self.path@ == path,
                supersede_all(self@.records, u.skip(k as int)) == supersede_all(recs1, u),
            decreases undone.len() - k,
        {
            let ghost cur = self@.records;
            assert(u.skip(k as int)[0] == undone@[k as int]@);
            assert(u.skip(k as int).drop_first() =~= u.skip(k + 1));
            let c = undone[k].clone();
            match self.set_record_state(c, RecordState::Superseded) {
                Ok(_) => {},
                Err(e) => {
                    return Err(e);
                },
            }
            k = k + 1;
        }
        assert(u.skip(k as int) =~= Seq::<RecordView>::empty());
        Ok(())
    }
}


// ---------------------------------------------------------------------------
// Laws of the history
// ---------------------------------------------------------------------------
/// The records after marking every undone run superseded.
pub open spec fn undone_superseded(recs: Seq<RecordView>) -> Seq<RecordView> {
    Seq::new(
        recs.len(),
        |j: int|
            if recs[j].state == RecordState::Undone {
                RecordView { state: RecordState::Superseded, ..recs[j] }
            } else {
                recs[j]
            },
    )
}

/// Whether some run in `u` carries the identifier `j`.
pub open spec fn names_id(u: Seq<RecordView>, j: nat) -> bool {
    exists|k: int| 0 <= k < u.len() && (#[trigger] u[k]).id == Some(j)
}

proof fn lemma_id_count_beyond(recs: Seq<RecordView>, j: nat)
    requires
        ids_are_positions(recs),
        j >= recs.len(),
    ensures
        id_count(recs, j) == 0,
    decreases recs.len(),
{
    if recs.len() > 0 {
        let d = recs.drop_last();
        assert forall|i: int| 0 <= i < d.len() implies (#[trigger] d[i]).id == Some(i as nat) by {
            assert(d[i] == recs[i]);
        }
        lemma_id_count_beyond(d, j);
        assert(recs.last() == recs[recs.len() - 1]);
    }
}

proof fn lemma_id_count_positions(recs: Seq<RecordView>, j: nat)
    requires
        ids_are_positions(recs),
        j < recs.len(),
    ensures
        id_count(recs, j) == 1,
    decreases recs.len(),
{
    let d = recs.drop_last();
    assert forall|i: int| 0 <= i < d.len() implies (#[trigger] d[i]).id == Some(i as nat) by {
        assert(d[i] == recs[i]);
    }
    assert(recs.last() == recs[recs.len() - 1]);
    if j < d.len() {
        lemma_id_count_positions(d, j);
    } else {
        lemma_id_count_beyond(d, j);
    }
}

proof fn lemma_redo_list_positions(recs: Seq<RecordView>)
    requires
        ids_are_positions(recs),
    ensures
        forall|k: int|
            0 <= k < redo_list(recs).len() ==> {
                let id = (#[trigger] redo_list(recs)[k]).id;
                &&& id is Some
                &&& id->0 < recs.len()
                &&& recs[id->0 as int].state == RecordState::Undone
            },
        forall|j: int|
            0 <= j < recs.len() && (#[trigger] recs[j]).state == RecordState::Undone ==> names_id(
                redo_list(recs),
                j as nat,
            ),
    decreases recs.len(),
{
    if recs.len() > 0 {
        let d = recs.drop_last();
        assert forall|i: int| 0 <= i < d.len() implies (#[trigger] d[i]).id == Some(i as nat) by {
            assert(d[i] == recs[i]);
        }
        lemma_redo_list_positions(d);
        let n = recs.len() - 1;
        assert(recs.last() == recs[n]);
        let rd = redo_list(d);
        let r = redo_list(recs);
        assert forall|k: int| 0 <= k < r.len() implies {
            let id = (#[trigger] r[k]).id;
            &&& id is Some
            &&& id->0 < recs.len()
            &&& recs[id->0 as int].state == RecordState::Undone
        } by {
            if k < rd.len() {
                assert(r[k] == rd[k]);
                let id = rd[k].id->0;
                assert(recs[id as int] == d[id as int]);
            }
        }
        assert forall|j: int|
            0 <= j < recs.len() && (#[trigger] recs[j]).state == RecordState::Undone implies names_id(
            r,
            j as nat,
        ) by {
            if j < n {
                assert(d[j] == recs[j]);
                assert(names_id(rd, j as nat));
                let k = choose|k: int| 0 <= k < rd.len() && (#[trigger] rd[k]).id == Some(j as nat);
                assert(r[k] == rd[k]);
            } else {
                assert(r[rd.len() as int] == recs[n]);
            }
        }
    }
}

proof fn lemma_supersede_all_positions(recs: Seq<RecordView>, u: Seq<RecordView>)
    requires
        ids_are_positions(recs),
        forall|k: int|
            0 <= k < u.len() ==> (#[trigger] u[k]).id is Some && u[k].id->0 < recs.len(),
    ensures
        supersede_all(recs, u) == (
            Seq::new(
                recs.len(),
                |j: int|
                    if names_id(u, j as nat) {
                        RecordView { state: RecordState::Superseded, ..recs[j] }
                    } else {
                        recs[j]
                    },
            ),
            None::<HistoryErrorView>,
        ),
    decreases u.len(),
{
    let target = Seq::new(
        recs.len(),
        |j: int|
            if names_id(u, j as nat) {
                RecordView { state: RecordState::Superseded, ..recs[j] }
            } else {
                recs[j]
            },
    );
    if u.len() == 0 {
        assert(target =~= recs);
    } else {
        let id = u[0].id->0;
        lemma_id_count_positions(recs, id);
        let recs2 = with_state(recs, id, RecordState::Superseded);
        let u2 = u.drop_first();
        assert forall|i: int| 0 <= i < recs2.len() implies (#[trigger] recs2[i]).id == Some(i as nat) by {
            assert(recs[i].id == Some(i as nat));
        }
        assert forall|k: int| 0 <= k < u2.len() implies (#[trigger] u2[k]).id is Some && u2[k].id->0
            < recs2.len() by {
            assert(u2[k] == u[k + 1]);
        }
        lemma_supersede_all_positions(recs2, u2);
        let target2 = Seq::new(
            recs2.len(),
            |j: int|
                if names_id(u2, j as nat) {
                    RecordView { state: RecordState::Superseded, ..recs2[j] }
                } else {
                    recs2[j]
                },
        );
        assert forall|j: int| 0 <= j < recs.len() implies #[trigger] target2[j] == target[j] by {
            assert(recs[j].id == Some(j as nat));
            if j as nat == id {
                assert(names_id(u, j as nat));
            } else {
                if names_id(u, j as nat) {
                    let k = choose|k: int| 0 <= k < u.len() && (#[trigger] u[k]).id == Some(j as nat);
                    assert(k != 0);
                    assert(u2[k - 1] == u[k]);
                    assert(names_id(u2, j as nat));
                }
                if names_id(u2, j as nat) {
                    let k = choose|k: int| 0 <= k < u2.len() && (#[trigger] u2[k]).id == Some(j as nat);
                    assert(u2[k] == u[k + 1]);
                    assert(names_id(u, j as nat));
                }
            }
        }
        assert(target2 =~= target);
    }
}

proof fn lemma_redo_list_empty(recs: Seq<RecordView>)
    requires
        forall|j: int| 0 <= j < recs.len() ==> (#[trigger] recs[j]).state != RecordState::Undone,
    ensures
        redo_list(recs).len() == 0,
    decreases recs.len(),
{
    if recs.len() > 0 {
        let d = recs.drop_last();
        assert forall|j: int| 0 <= j < d.len() implies (#[trigger] d[j]).state != RecordState::Undone by {
            assert(d[j] == recs[j]);
        }
        lemma_redo_list_empty(d);
        assert(recs.last() == recs[recs.len() - 1]);
    }
}

/// A new run supersedes every undone run: when each record's identifier is
/// its position, pushing a run succeeds, keeps identifiers positional,
/// appends the run as the next one to undo, marks exactly the undone runs
/// superseded, and leaves nothing to redo.
pub proof fn lemma_push_supersedes_undone(
    recs: Seq<RecordView>,
    actions: Seq<ActionView>,
    metadata: ActionRecordMetadataView,
    ts: int,
)
    requires
        ids_are_positions(recs),
    ensures
        ({
            let (after, err) = push_spec(recs, actions, metadata, ts);
            let rec = RecordView {
                id: Some(recs.len()),
                state: RecordState::Applied,
                actions: actions,
                metadata: metadata,
                timestamp: ts,
            };
            &&& err is None
            &&& after == undone_superseded(recs).push(rec)
            &&& ids_are_positions(after)
            &&& redo_list(after).len() == 0
            &&& undo_list(after).len() > 0
            &&& undo_list(after)[0] == rec
        }),
{
    let rec = RecordView {
        id: Some(recs.len()),
        state: RecordState::Applied,
        actions: actions,
        metadata: metadata,
        timestamp: ts,
    };
    let recs1 = recs.push(rec);
    assert forall|i: int| 0 <= i < recs1.len() implies (#[trigger] recs1[i]).id == Some(i as nat) by {
        if i < recs.len() {
            assert(recs1[i] == recs[i]);
        }
    }
    let u = redo_list(recs1);
    lemma_redo_list_positions(recs1);
    lemma_supersede_all_positions(recs1, u);
    let after = push_spec(recs, actions, metadata, ts).0;
    let expected = undone_superseded(recs).push(rec);
    assert forall|j: int| 0 <= j < recs1.len() implies #[trigger] after[j] == expected[j] by {
        if names_id(u, j as nat) {
            let k = choose|k: int| 0 <= k < u.len() && (#[trigger] u[k]).id == Some(j as nat);
            assert(recs1[j].state == RecordState::Undone);
        }
        if j < recs.len() {
            assert(recs1[j] == recs[j]);
        }
    }
    assert(after =~= expected);
    assert forall|i: int| 0 <= i < after.len() implies (#[trigger] after[i]).id == Some(i as nat) by {
        assert(recs1[i].id == Some(i as nat));
    }
    assert forall|j: int| 0 <= j < after.len() implies (#[trigger] after[j]).state
        != RecordState::Undone by {
        if j < recs.len() {
            assert(recs1[j] == recs[j]);
        }
    }
    lemma_redo_list_empty(after);
    assert(after.last() == rec);
}

/// Only applied or redone runs are offered for undoing.
pub proof fn lemma_undo_list_undoable(recs: Seq<RecordView>)
    ensures
        forall|k: int|
            0 <= k < undo_list(recs).len() ==> is_undoable(#[trigger] undo_list(recs)[k].state),
    decreases recs.len(),
{
    if recs.len() > 0 {
        lemma_undo_list_undoable(recs.drop_last());
        let head = if is_undoable(recs.last().state) {
            seq![recs.last()]
        } else {
            seq![]
        };
        let rest = undo_list(recs.drop_last());
        assert forall|k: int| 0 <= k < undo_list(recs).len() implies is_undoable(
            #[trigger] undo_list(recs)[k].state,
        ) by {
            if k >= head.len() {
                assert(undo_list(recs)[k] == rest[k - head.len()]);
            }
        }
    }
}

/// Only undone runs are offered for redoing.
pub proof fn lemma_redo_list_undone(recs: Seq<RecordView>)
    ensures
        forall|k: int|
            0 <= k < redo_list(recs).len() ==> (#[trigger] redo_list(recs)[k]).state
                == RecordState::Undone,
    decreases recs.len(),
{
    if recs.len() > 0 {
        lemma_redo_list_undone(recs.drop_last());
        let rest = redo_list(recs.drop_last());
        assert forall|k: int| 0 <= k < redo_list(recs).len() implies (#[trigger] redo_list(
            recs,
        )[k]).state == RecordState::Undone by {
            if k < rest.len() {
                assert(redo_list(recs)[k] == rest[k]);
            }
        }
    }
}

/// A run that is undone is offered for redoing, and a run that is redone
/// is offered for undoing again: after the state of the run with
/// identifier `id` is set to `Undone` (or `Redone`), the runs to redo (or
/// to undo) include it.
pub proof fn lemma_undone_runs_can_be_redone(recs: Seq<RecordView>, id: nat)
    requires
        names_id(recs, id),
    ensures
        names_id(redo_list(with_state(recs, id, RecordState::Undone)), id),
        names_id(undo_list(with_state(recs, id, RecordState::Redone)), id),
    decreases recs.len(),
{
    let d = recs.drop_last();
    let u = with_state(recs, id, RecordState::Undone);
    let r = with_state(recs, id, RecordState::Redone);
    assert(u.drop_last() =~= with_state(d, id, RecordState::Undone));
    assert(r.drop_last() =~= with_state(d, id, RecordState::Redone));
    if recs.last().id == Some(id) {
        assert(u.last().state == RecordState::Undone);
        let rl = redo_list(u);
        assert(rl.last() == u.last());
        assert(rl[rl.len() - 1].id == Some(id));
        assert(r.last().state == RecordState::Redone);
        let ul = undo_list(r);
        assert(ul[0] == r.last());
        assert(ul[0].id == Some(id));
    } else {
        let k = choose|k: int| 0 <= k < recs.len() && (#[trigger] recs[k]).id == Some(id);
        assert(k < d.len());
        assert(d[k].id == Some(id));
        lemma_undone_runs_can_be_redone(d, id);
        let rd = redo_list(with_state(d, id, RecordState::Undone));
        let k1 = choose|k1: int| 0 <= k1 < rd.len() && (#[trigger] rd[k1]).id == Some(id);
        let rl = redo_list(u);
        if u.last().state == RecordState::Undone {
            assert(rl == rd.push(u.last()));
            assert(rl[k1] == rd[k1]);
        } else {
            assert(rl == rd);
        }
        assert(rl[k1].id == Some(id));
        let ud = undo_list(with_state(d, id, RecordState::Redone));
        let k2 = choose|k2: int| 0 <= k2 < ud.len() && (#[trigger] ud[k2]).id == Some(id);
        let ul = undo_list(r);
        let head = if is_undoable(r.last().state) {
            seq![r.last()]
        } else {
            seq![]
        };
        assert(ul == head + ud);
        assert(ul[head.len() + k2] == ud[k2]);
        assert(ul[head.len() + k2].id == Some(id));
    }
}

/// Setting a state changes no identifier, so positional identifiers stay
/// positional.
pub proof fn lemma_with_state_keeps_ids(recs: Seq<RecordView>, id: nat, state: RecordState)
    ensures
        with_state(recs, id, state).len() == recs.len(),
        forall|j: int|
            0 <= j < recs.len() ==> (#[trigger] with_state(recs, id, state)[j]).id == recs[j].id,
        ids_are_positions(recs) ==> ids_are_positions(with_state(recs, id, state)),
{
}


// ---------------------------------------------------------------------------
// Where the history is read from and written to
// ---------------------------------------------------------------------------
/// The message for a history path that exists but is not a file.
pub open spec fn not_a_file_message(path: Seq<char>) -> Seq<char> {
    path + " exists but is not a file."@
}

/// Where a history is saved, and the error to report once it is saved
/// there: a path that exists but is not a file is not overwritten; the
/// history goes to a backup in the temporary folder instead.
#[derive(Debug)]
pub struct SaveTarget {
    pub write_to: String,
    pub error: Option<HistoryError>,
}

impl History {
    /// What loading decides before reading: a file is read (`Loaded`), no
    /// file starts a new history, and anything else at the path is an
    /// error.
    pub fn load_decision(&self, is_file: bool, exists: bool) -> (r: Result<
        LoadHistoryResult,
        HistoryError,
    >)
        ensures
            is_file ==> r == Ok::<LoadHistoryResult, HistoryError>(LoadHistoryResult::Loaded),
            !is_file && exists ==> (r matches Err(e) && e@ == HistoryErrorView::LoadError(
                not_a_file_message(self@.path),
            )),
            !is_file && !exists ==> r == Ok::<LoadHistoryResult, HistoryError>(
                LoadHistoryResult::New,
            ),
    {
        if is_file {
            Ok(LoadHistoryResult::Loaded)
        } else if exists {
            let mut v: Vec<char> = Vec::new();
            push_str(&mut v, self.path.as_str());
            push_str(&mut v, " exists but is not a file.");
            Err(HistoryError::LoadError(string_from_chars(v.as_slice())))
        } else {
            Ok(LoadHistoryResult::New)
        }
    }

    /// Replaces the records with those read from the file.
    pub fn set_records(&mut self, records: Vec<Record>)
        ensures
            final(self)@.path == old(self)@.path,
            final(self)@.records == record_views(records@),
    {
        self.records = records;
    }

    /// Where to save: the history's own path, or (when something else
    /// than a file is there) a backup in `temp_dir` named like the history
    /// file, reported as an error after saving. Without a usable temporary
    /// folder that is a `SaveError`.
    pub fn save_target(&self, is_file: bool, exists: bool, temp_dir: Option<&str>) -> (r: Result<
        SaveTarget,
        HistoryError,
    >)
        requires
            !is_file && exists && temp_dir is Some ==> utf8_file_name(self@.path) is Some,
        ensures
            (is_file || !exists) ==> (r matches Ok(t) && t.write_to@ == self@.path && t.error is None),
            (!is_file && exists && temp_dir is None) ==> (r matches Err(e) && e@
                == HistoryErrorView::SaveError("Temporary directory is not valid UTF-8."@)),
            (!is_file && exists && temp_dir is Some) ==> (r matches Ok(t) && t.write_to@ == utf8_join(
                temp_dir->0@,
                utf8_file_name(self@.path)->0,
            ) && (t.error matches Some(e) && e@ == HistoryErrorView::SaveErrorWithBackup(
                not_a_file_message(self@.path),
                t.write_to@,
            ))),
    {
        if !is_file && exists {
            match temp_dir {
                None => Err(HistoryError::SaveError("Temporary directory is not valid UTF-8.".to_owned())),
                Some(t) => {
                    let name = match file_name(self.path.as_str()) {
                        Some(n) => n,
                        None => {
                            return Err(HistoryError::SaveError(String::new()));
                        },
                    };
                    let backup = join(t, name.as_str());
                    let mut v: Vec<char> = Vec::new();
                    push_str(&mut v, self.path.as_str());
                    push_str(&mut v, " exists but is not a file.");
                    let e = HistoryError::SaveErrorWithBackup(
                        string_from_chars(v.as_slice()),
                        backup.clone(),
                    );
                    Ok(SaveTarget { write_to: backup, error: Some(e) })
                },
            }
        } else {
            Ok(SaveTarget { write_to: self.path.clone(), error: None })
        }
    }

    /// [`History::save_target`] for any path: `None` when a backup is
    /// needed but the history path has no file name to name it by.
    pub fn checked_save_target(&self, is_file: bool, exists: bool, temp_dir: Option<&str>) -> (r:
        Option<Result<SaveTarget, HistoryError>>)
        ensures
            r is None <==> (!is_file && exists && temp_dir is Some && utf8_file_name(self@.path)
                is None),
            r matches Some(res) ==> ((is_file || !exists) ==> (res matches Ok(t) && t.write_to@
                == self@.path && t.error is None)),
            r matches Some(res) ==> ((!is_file && exists && temp_dir is None) ==> (res matches Err(
                e,
            ) && e@ == HistoryErrorView::SaveError("Temporary directory is not valid UTF-8."@))),
            r matches Some(res) ==> ((!is_file && exists && temp_dir is Some) ==> (res matches Ok(
                t,
            ) && t.write_to@ == utf8_join(temp_dir->0@, utf8_file_name(self@.path)->0) && (
            t.error matches Some(e) && e@ == HistoryErrorView::SaveErrorWithBackup(
                not_a_file_message(self@.path),
                t.write_to@,
            )))),
    {
        if !is_file && exists && temp_dir.is_some() {
            match file_name(self.path.as_str()) {
                None => {
                    return None;
                },
                Some(_) => {},
            }
        }
        Some(self.save_target(is_file, exists, temp_dir))
    }
}

} // verus!
