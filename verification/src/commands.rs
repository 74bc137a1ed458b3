//! The decisions of the command-line commands: what undoing or redoing
//! runs does and says, and how a rejected plan is reported.

use crate::action::ActionView;
use crate::handler::{
    forward_ops_spec, op_views, undo_ops_spec, undo_record_ops, ActionHandler, FsOperation,
    FsOperationView,
};
use crate::history::{
    action_list_views, record_views, redo_list, take_opt, undo_list, History, HistoryMode,
    LoadHistoryResult, Record, RecordState, RecordView, TemplateMetadata, TemplateMetadataView,
};
use crate::messages::{describable, message_spec};
use crate::text::{
    decimal_spec, join_spec, push_all, push_str, string_from_chars, usize_to_decimal, views_of,
};
use crate::ui::{by_amount_spec, ItemName, ItemNameView};
use crate::validation::{error_views, ValidationError};
use vstd::prelude::*;

verus! {

/// Which template a rename run uses: a file or name, or an inline script.
#[derive(Debug)]
pub struct TemplateArgs {
    pub template: Option<String>,
    pub script: Option<String>,
}

/// How many runs to undo or redo.
#[derive(Debug)]
pub struct UndoRedoArgs {
    pub amount: Option<usize>,
}

impl UndoRedoArgs {
    /// The amount asked for; one when none is given.
    pub fn amount_or_default(&self) -> (r: usize)
        ensures
            r == match self.amount {
                Some(a) => a,
                None => 1,
            },
    {
        match self.amount {
            Some(a) => a,
            None => 1,
        }
    }
}

/// What is said before undoing or redoing: that there is nothing to do,
/// or that fewer runs than asked can be done.
pub open spec fn undo_redo_notice_spec(verb: Seq<char>, amount: nat, actual: nat) -> Option<
    Seq<char>,
> {
    if actual == 0 {
        Some("There are no runs to "@ + verb + "."@)
    } else if actual < amount {
        Some(
            "Tried to "@ + verb + " "@ + decimal_spec(amount) + " runs, but only "@ + decimal_spec(
                actual,
            ) + " can be "@ + verb + "ne."@,
        )
    } else {
        None
    }
}

pub open spec fn verb_spec(mode: HistoryMode) -> Seq<char> {
    match mode {
        HistoryMode::Undo => "undo"@,
        HistoryMode::Redo => "redo"@,
    }
}

pub open spec fn verb_capitalized_spec(mode: HistoryMode) -> Seq<char> {
    match mode {
        HistoryMode::Undo => "Undo"@,
        HistoryMode::Redo => "Redo"@,
    }
}

/// The notice before undoing or redoing `actual` of `amount` runs.
pub fn undo_redo_notice(mode: HistoryMode, amount: usize, actual: usize) -> (r: Option<String>)
    ensures
        match undo_redo_notice_spec(verb_spec(mode), amount as nat, actual as nat) {
            Some(t) => r matches Some(s) && s@ == t,
            None => r is None,
        },
{
    let verb = mode.verb();
    if actual == 0 {
        let mut v: Vec<char> = Vec::new();
        push_str(&mut v, "There are no runs to ");
        push_str(&mut v, verb);
        push_str(&mut v, ".");
        Some(string_from_chars(v.as_slice()))
    } else if actual < amount {
        let mut v: Vec<char> = Vec::new();
        push_str(&mut v, "Tried to ");
        push_str(&mut v, verb);
        push_str(&mut v, " ");
        let a = usize_to_decimal(amount);
        push_all(&mut v, &a);
        push_str(&mut v, " runs, but only ");
        let b = usize_to_decimal(actual);
        push_all(&mut v, &b);
        push_str(&mut v, " can be ");
        push_str(&mut v, verb);
        push_str(&mut v, "ne.");
        Some(string_from_chars(v.as_slice()))
    } else {
        None
    }
}

/// The question asked before undoing or redoing `amount` runs.
pub fn undo_redo_prompt(mode: HistoryMode, amount: usize) -> (r: String)
    ensures
        r@ == verb_capitalized_spec(mode) + " "@ + decimal_spec(amount as nat) + " "@
            + by_amount_spec(ItemNameView { single: "record"@, plural: None }, amount as nat)
            + "?"@,
{
    let mut v: Vec<char> = Vec::new();
    push_str(&mut v, mode.verb_capitalized());
    push_str(&mut v, " ");
    let a = usize_to_decimal(amount);
    push_all(&mut v, &a);
    push_str(&mut v, " ");
    let name = ItemName::simple("record");
    let n = name.by_amount(amount);
    push_str(&mut v, n.as_str());
    push_str(&mut v, "?");
    string_from_chars(v.as_slice())
}

/// The operations that redo a record: each action applied, in order.
pub open spec fn redo_record_ops(actions: Seq<ActionView>) -> Seq<FsOperationView>
    decreases actions.len(),
{
    if actions.len() == 0 {
        seq![]
    } else {
        redo_record_ops(actions.drop_last()) + forward_ops_spec(actions.last())
    }
}

/// The operations that undo (actions last first) or redo (in order) a
/// record.
pub fn record_operations(handler: &ActionHandler, mode: HistoryMode, record: &Record) -> (r: Vec<
    FsOperation,
>)
    ensures
        mode == HistoryMode::Undo ==> op_views(r@) == undo_record_ops(record@.actions),
        mode == HistoryMode::Redo ==> op_views(r@) == redo_record_ops(record@.actions),
{
    let actions = record.actions();
    let ghost av = action_list_views(actions@);
    let mut out: Vec<FsOperation> = Vec::new();
    match mode {
        HistoryMode::Undo => {
            let mut i = actions.len();
            assert(op_views(out@) =~= Seq::<FsOperationView>::empty());
            while i > 0
                invariant
                    i <= actions@.len(),
                    av == action_list_views(actions@),
                    op_views(out@) == undo_record_ops_suffix(av, i as int),
                decreases i,
            {
                let ops = handler.undo(&actions[i - 1]);
                let ghost before = op_views(out@);
                let mut k: usize = 0;
                while k < ops.len()
                    invariant
                        k <= ops@.len(),
                        op_views(out@) == before + op_views(ops@).take(k as int),
                    decreases ops.len() - k,
                {
                    let ghost b2 = op_views(out@);
                    let o = clone_op(&ops[k]);
                    out.push(o);
                    assert(op_views(out@) =~= b2.push(ops@[k as int]@));
                    assert(op_views(ops@).take(k + 1) =~= op_views(ops@).take(k as int).push(
                        ops@[k as int]@,
                    ));
                    k = k + 1;
                }
                assert(op_views(ops@).take(ops@.len() as int) =~= op_views(ops@));
                assert(av[i - 1] == actions@[i - 1]@);
                proof {
                    lemma_undo_suffix_step(av, i as int);
                }
                i = i - 1;
            }
            proof {
                lemma_undo_suffix_full(av);
            }
        },
        HistoryMode::Redo => {
            let mut i: usize = 0;
            while i < actions.len()
                invariant
                    i <= actions@.len(),
                    av == action_list_views(actions@),
                    op_views(out@) == redo_record_ops(av.take(i as int)),
                decreases actions.len() - i,
            {
                let ops = handler.redo(&actions[i]);
                let ghost before = op_views(out@);
                let mut k: usize = 0;
                while k < ops.len()
                    invariant
                        k <= ops@.len(),
                        op_views(out@) == before + op_views(ops@).take(k as int),
                    decreases ops.len() - k,
                {
                    let ghost b2 = op_views(out@);
                    let o = clone_op(&ops[k]);
                    out.push(o);
                    assert(op_views(out@) =~= b2.push(ops@[k as int]@));
                    assert(op_views(ops@).take(k + 1) =~= op_views(ops@).take(k as int).push(
                        ops@[k as int]@,
                    ));
                    k = k + 1;
                }
                assert(op_views(ops@).take(ops@.len() as int) =~= op_views(ops@));
                assert(av.take(i + 1).drop_last() =~= av.take(i as int));
                assert(av.take(i + 1).last() == actions@[i as int]@);
                i = i + 1;
            }
            assert(av.take(actions@.len() as int) =~= av);
        },
    }
    out
}

/// The undo operations of the actions from position `i` on, last first
/// (so that undoing continues with them after the later ones).
pub open spec fn undo_record_ops_suffix(av: Seq<ActionView>, i: int) -> Seq<FsOperationView>
    decreases av.len() - i,
{
    if i < 0 || i >= av.len() {
        seq![]
    } else {
        undo_record_ops_suffix(av, i + 1) + undo_ops_spec(av[i])
    }
}

proof fn lemma_undo_suffix_step(av: Seq<ActionView>, i: int)
    requires
        0 < i <= av.len(),
    ensures
        undo_record_ops_suffix(av, i - 1) == undo_record_ops_suffix(av, i) + undo_ops_spec(
            av[i - 1],
        ),
{
}

proof fn lemma_undo_suffix_full(av: Seq<ActionView>)
    ensures
        undo_record_ops_suffix(av, 0) == undo_record_ops(av),
    decreases av.len(),
{
    if av.len() > 0 {
        let d = av.drop_last();
        lemma_undo_suffix_full(d);
        lemma_suffix_drop_last(av, 0);
    }
}

proof fn lemma_suffix_drop_last(av: Seq<ActionView>, i: int)
    requires
        0 <= i < av.len(),
    ensures
        undo_record_ops_suffix(av, i) == undo_ops_spec(av.last()) + undo_record_ops_suffix(
            av.drop_last(),
            i,
        ),
    decreases av.len() - i,
{
    let d = av.drop_last();
    if i == av.len() - 1 {
        assert(undo_record_ops_suffix(av, i + 1) == Seq::<FsOperationView>::empty());
        assert(undo_record_ops_suffix(d, i) == Seq::<FsOperationView>::empty());
        assert(av[i] == av.last());
    } else {
        lemma_suffix_drop_last(av, i + 1);
        assert(d[i] == av[i]);
        assert(undo_record_ops_suffix(av, i) =~= undo_ops_spec(av.last()) + undo_record_ops_suffix(
            d,
            i,
        ));
    }
}

fn clone_op(o: &FsOperation) -> (r: FsOperation)
    ensures
        r@ == o@,
{
    match o {
        FsOperation::MoveFile { from, to } => FsOperation::MoveFile { from: from.clone(), to: to.clone() },
        FsOperation::CopyFile { from, to } => FsOperation::CopyFile { from: from.clone(), to: to.clone() },
        FsOperation::RemoveFile(p) => FsOperation::RemoveFile(p.clone()),
        FsOperation::CreateDir(p) => FsOperation::CreateDir(p.clone()),
        FsOperation::RemoveDir(p) => FsOperation::RemoveDir(p.clone()),
    }
}

/// The state a record takes after being undone or redone.
pub fn state_after(mode: HistoryMode) -> (r: RecordState)
    ensures
        mode == HistoryMode::Undo ==> r == RecordState::Undone,
        mode == HistoryMode::Redo ==> r == RecordState::Redone,
{
    match mode {
        HistoryMode::Undo => RecordState::Undone,
        HistoryMode::Redo => RecordState::Redone,
    }
}

/// The report of a rejected plan: its errors' messages, one after the
/// other, after a heading; nothing for an accepted plan.
pub open spec fn validation_report_spec(errors: Seq<crate::validation::ValidationErrorView>) -> Option<
    Seq<char>,
> {
    if errors.len() == 0 {
        None
    } else {
        Some(
            "Had validation errors:\n"@ + join_spec(
                errors.map_values(|e: crate::validation::ValidationErrorView| message_spec(e)),
                "\n"@,
            ),
        )
    }
}

/// The report of a rejected plan.
pub fn validation_report(errors: &[ValidationError]) -> (r: Option<String>)
    requires
        forall|i: int| 0 <= i < errors@.len() ==> describable(#[trigger] errors@[i]@),
    ensures
        match validation_report_spec(error_views(errors@)) {
            Some(t) => r matches Some(s) && s@ == t,
            None => r is None,
        },
{
    if errors.len() == 0 {
        return None;
    }
    let ghost ev = error_views(errors@);
    let mut parts: Vec<String> = Vec::new();
    let mut i: usize = 0;
    while i < errors.len()
        invariant
            i <= errors@.len(),
            ev == error_views(errors@),
            forall|k: int| 0 <= k < errors@.len() ==> describable(#[trigger] errors@[k]@),
            crate::text::views_of(parts@) == ev.map_values(
                |e: crate::validation::ValidationErrorView| message_spec(e),
            ).take(i as int),
        decreases errors.len() - i,
    {
        let ghost before = crate::text::views_of(parts@);
        let m = errors[i].message();
        let ghost mv = m@;
        parts.push(m);
        assert(ev[i as int] == errors@[i as int]@);
        assert(crate::text::views_of(parts@) =~= before.push(mv));
        assert(ev.map_values(|e: crate::validation::ValidationErrorView| message_spec(e)).take(
            i + 1,
        ) =~= ev.map_values(|e: crate::validation::ValidationErrorView| message_spec(e)).take(
            i as int,
        ).push(message_spec(ev[i as int])));
        assert(crate::text::views_of(parts@) =~= ev.map_values(
            |e: crate::validation::ValidationErrorView| message_spec(e),
        ).take(i + 1));
        i = i + 1;
    }
    assert(ev.map_values(|e: crate::validation::ValidationErrorView| message_spec(e)).take(
        errors@.len() as int,
    ) =~= ev.map_values(|e: crate::validation::ValidationErrorView| message_spec(e)));
    let mut out: Vec<char> = Vec::new();
    push_str(&mut out, "Had validation errors:\n");
    let nl = crate::text::chars_of("\n");
    let j = crate::text::join_strings(&parts, &nl);
    push_all(&mut out, &j);
    Some(string_from_chars(out.as_slice()))
}

// ---------------------------------------------------------------------------
// Undo and redo
// ---------------------------------------------------------------------------
/// The runs to undo (most recent first) or redo (oldest first), at most
/// `amount` of them.
pub fn records_for(history: &History, mode: HistoryMode, amount: usize) -> (r: Vec<Record>)
    ensures
        mode == HistoryMode::Undo ==> record_views(r@) == take_opt(
            undo_list(history@.records),
            Some(amount),
        ),
        mode == HistoryMode::Redo ==> record_views(r@) == take_opt(
            redo_list(history@.records),
            Some(amount),
        ),
{
    let r = match mode {
        HistoryMode::Undo => history.get_n_records_to_undo(amount),
        HistoryMode::Redo => history.get_n_records_to_redo(amount),
    };
    match r {
        Ok(v) => v,
        Err(_) => Vec::new(),
    }
}

// ---------------------------------------------------------------------------
// Choosing the template of a rename run
// ---------------------------------------------------------------------------
/// The template a rename run was asked to use.
#[derive(Debug)]
pub enum TemplateChoice {
    /// None given: the previous run's template and arguments are used.
    Previous,
    FileOrName(String),
    Script(String),
}

/// The template a run uses and its arguments; `reused` when they come from
/// the previous run.
#[derive(Debug)]
pub enum TemplateSource {
    FileOrName { name: String, arguments: Vec<String>, reused: bool },
    Script { script: String, arguments: Vec<String>, reused: bool },
}

/// Mathematical view of a [`TemplateSource`].
pub enum TemplateSourceView {
    FileOrName { name: Seq<char>, arguments: Seq<Seq<char>>, reused: bool },
    Script { script: Seq<char>, arguments: Seq<Seq<char>>, reused: bool },
}

impl View for TemplateSource {
    type V = TemplateSourceView;

    open spec fn view(&self) -> TemplateSourceView {
        match self {
            TemplateSource::FileOrName { name, arguments, reused } => TemplateSourceView::FileOrName {
                name: name@,
                arguments: views_of(arguments@),
                reused: *reused,
            },
            TemplateSource::Script { script, arguments, reused } => TemplateSourceView::Script {
                script: script@,
                arguments: views_of(arguments@),
                reused: *reused,
            },
        }
    }
}

/// Neither a template was given nor a previous run is known.
#[derive(Debug, PartialEq, Eq)]
pub struct NoTemplate;

impl NoTemplate {
    pub fn message(&self) -> (r: &'static str)
        ensures
            r@ == "No template specified and no data from previous run available."@,
    {
        "No template specified and no data from previous run available."
    }
}

/// The template of a run: the one given, with the given arguments; else,
/// when a history was loaded and has a record, the previous run's template
/// and arguments.
pub open spec fn template_source_spec(
    choice_file: Option<Seq<char>>,
    choice_script: Option<Seq<char>>,
    arguments: Seq<Seq<char>>,
    loaded: bool,
    records: Seq<RecordView>,
) -> Option<TemplateSourceView> {
    match choice_file {
        Some(f) => Some(TemplateSourceView::FileOrName { name: f, arguments, reused: false }),
        None => match choice_script {
            Some(s) => Some(TemplateSourceView::Script { script: s, arguments, reused: false }),
            None => if loaded && records.len() > 0 {
                match records.last().metadata.template {
                    TemplateMetadataView::FileOrName(f) => Some(
                        TemplateSourceView::FileOrName {
                            name: f,
                            arguments: records.last().metadata.arguments,
                            reused: true,
                        },
                    ),
                    TemplateMetadataView::Script(s) => Some(
                        TemplateSourceView::Script {
                            script: s,
                            arguments: records.last().metadata.arguments,
                            reused: true,
                        },
                    ),
                }
            } else {
                None
            },
        },
    }
}

pub open spec fn choice_file(c: TemplateChoice) -> Option<Seq<char>> {
    match c {
        TemplateChoice::FileOrName(f) => Some(f@),
        _ => None,
    }
}

pub open spec fn choice_script(c: TemplateChoice) -> Option<Seq<char>> {
    match c {
        TemplateChoice::Script(s) => Some(s@),
        _ => None,
    }
}

fn copy_strings(v: &[String]) -> (r: Vec<String>)
    ensures
        views_of(r@) == views_of(v@),
{
    let mut r: Vec<String> = Vec::new();
    let mut i: usize = 0;
    while i < v.len()
        invariant
            i <= v@.len(),
            views_of(r@) == views_of(v@).take(i as int),
        decreases v.len() - i,
    {
        let ghost before = views_of(r@);
        r.push(v[i].clone());
        assert(views_of(r@) =~= before.push(v@[i as int]@));
        assert(views_of(v@).take(i + 1) =~= views_of(v@).take(i as int).push(v@[i as int]@));
        i = i + 1;
    }
    assert(views_of(v@).take(v@.len() as int) =~= views_of(v@));
    r
}

proof fn lemma_supersede_keeps_metadata(recs: Seq<RecordView>, undone: Seq<RecordView>)
    ensures
        crate::history::supersede_all(recs, undone).0.len() == recs.len(),
        forall|j: int|
            0 <= j < recs.len() ==> (#[trigger] crate::history::supersede_all(recs, undone).0[j]).metadata
                == recs[j].metadata,
    decreases undone.len(),
{
    if undone.len() > 0 {
        if crate::history::set_state_error(recs, undone[0].id) is None {
            let next = crate::history::with_state(recs, undone[0].id->0, RecordState::Superseded);
            lemma_supersede_keeps_metadata(next, undone.drop_first());
            assert forall|j: int| 0 <= j < recs.len() implies (
            #[trigger] crate::history::supersede_all(recs, undone).0[j]).metadata
                == recs[j].metadata by {
                assert(next[j].metadata == recs[j].metadata);
            }
        }
    }
}

/// A run that gives no template re-uses the template of the run pushed last:
/// after a run with template metadata `metadata` is pushed onto any history,
/// choosing no template yields that template and its arguments, marked
/// re-used, whatever the history held before.
pub proof fn lemma_previous_template_is_last_pushed(
    recs: Seq<RecordView>,
    actions: Seq<ActionView>,
    metadata: crate::history::ActionRecordMetadataView,
    ts: int,
    arguments: Seq<Seq<char>>,
)
    ensures
        template_source_spec(
            None,
            None,
            arguments,
            true,
            crate::history::push_spec(recs, actions, metadata, ts).0,
        ) == Some(
            match metadata.template {
                TemplateMetadataView::FileOrName(f) => TemplateSourceView::FileOrName {
                    name: f,
                    arguments: metadata.arguments,
                    reused: true,
                },
                TemplateMetadataView::Script(s) => TemplateSourceView::Script {
                    script: s,
                    arguments: metadata.arguments,
                    reused: true,
                },
            },
        ),
{
    let rec = RecordView {
        id: Some(recs.len()),
        state: RecordState::Applied,
        actions: actions,
        metadata: metadata,
        timestamp: ts,
    };
    let pushed = recs.push(rec);
    lemma_supersede_keeps_metadata(pushed, redo_list(pushed));
    let after = crate::history::push_spec(recs, actions, metadata, ts).0;
    assert(after.len() == pushed.len());
    assert(after[after.len() - 1].metadata == pushed[pushed.len() - 1].metadata);
    assert(after.last().metadata == metadata);
}

/// Chooses the template of a rename run (see [`template_source_spec`]).
pub fn choose_template(
    choice: &TemplateChoice,
    arguments: &[String],
    history: &History,
    load_result: LoadHistoryResult,
) -> (r: Result<TemplateSource, NoTemplate>)
    ensures
        match template_source_spec(
            choice_file(*choice),
            choice_script(*choice),
            views_of(arguments@),
            load_result == LoadHistoryResult::Loaded,
            history@.records,
        ) {
            Some(t) => r matches Ok(s) && s@ == t,
            None => r == Err::<TemplateSource, NoTemplate>(NoTemplate),
        },
{
    match choice {
        TemplateChoice::FileOrName(f) => Ok(
            TemplateSource::FileOrName {
                name: f.clone(),
                arguments: copy_strings(arguments),
                reused: false,
            },
        ),
        TemplateChoice::Script(s) => Ok(
            TemplateSource::Script {
                script: s.clone(),
                arguments: copy_strings(arguments),
                reused: false,
            },
        ),
        TemplateChoice::Previous => {
            let loaded = match load_result {
                LoadHistoryResult::Loaded => true,
                LoadHistoryResult::New => false,
            };
            if !loaded {
                return Err(NoTemplate);
            }
            match history.get_previous_record() {
                Ok(Some(record)) => {
                    let metadata = record.metadata();
                    let arguments = copy_strings(metadata.arguments());
                    match metadata.template() {
                        TemplateMetadata::FileOrName(f) => Ok(
                            TemplateSource::FileOrName { name: f.clone(), arguments, reused: true },
                        ),
                        TemplateMetadata::Script(s) => Ok(
                            TemplateSource::Script { script: s.clone(), arguments, reused: true },
                        ),
                    }
                },
                _ => Err(NoTemplate),
            }
        },
    }
}

/// What is said when the previous run's template is used again.
pub open spec fn reuse_notice_spec(t: TemplateSourceView) -> Option<Seq<char>> {
    match t {
        TemplateSourceView::FileOrName { name, reused, .. } => if reused {
            Some("Re-using template '"@ + name + "' and arguments from previous rename."@)
        } else {
            None
        },
        TemplateSourceView::Script { script, reused, .. } => if reused {
            Some(
                "Re-using script\n```\n'"@ + script
                    + "'\n```\n and arguments from previous rename."@,
            )
        } else {
            None
        },
    }
}

pub fn reuse_notice(source: &TemplateSource) -> (r: Option<String>)
    ensures
        match reuse_notice_spec(source@) {
            Some(t) => r matches Some(s) && s@ == t,
            None => r is None,
        },
{
    match source {
        TemplateSource::FileOrName { name, reused, .. } => {
            if *reused {
                let mut v: Vec<char> = Vec::new();
                push_str(&mut v, "Re-using template '");
                push_str(&mut v, name.as_str());
                push_str(&mut v, "' and arguments from previous rename.");
                Some(string_from_chars(v.as_slice()))
            } else {
                None
            }
        },
        TemplateSource::Script { script, reused, .. } => {
            if *reused {
                let mut v: Vec<char> = Vec::new();
                push_str(&mut v, "Re-using script\n```\n'");
                push_str(&mut v, script.as_str());
                push_str(&mut v, "'\n```\n and arguments from previous rename.");
                Some(string_from_chars(v.as_slice()))
            } else {
                None
            }
        },
    }
}

} // verus!
