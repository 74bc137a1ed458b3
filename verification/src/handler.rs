//! Which file operations apply, undo and redo a recorded action, and which
//! actions a performed rename records.

use crate::action::{Action, ActionView, RenameAction, RenameActionView};
use crate::history::action_list_views;
use vstd::prelude::*;

verus! {

/// Whether renames may move files or must copy them.
#[derive(Debug, Clone, Copy, PartialEq, Eq, Structural)]
pub enum MoveMode {
    Auto,
    AlwaysCopy,
}

/// How a move was carried out: as a move, or (across file systems) as a
/// copy followed by removing the source.
#[derive(Debug, Clone, Copy, PartialEq, Eq, Structural)]
pub enum MoveFileResult {
    Moved,
    CopiedAndRemoved,
}

/// One operation on the file system.
#[derive(Debug)]
pub enum FsOperation {
    MoveFile { from: String, to: String },
    CopyFile { from: String, to: String },
    RemoveFile(String),
    CreateDir(String),
    RemoveDir(String),
}

/// Mathematical view of an [`FsOperation`].
pub enum FsOperationView {
    MoveFile { from: Seq<char>, to: Seq<char> },
    CopyFile { from: Seq<char>, to: Seq<char> },
    RemoveFile(Seq<char>),
    CreateDir(Seq<char>),
    RemoveDir(Seq<char>),
}

impl View for FsOperation {
    type V = FsOperationView;

    open spec fn view(&self) -> FsOperationView {
        match self {
            FsOperation::MoveFile { from, to } => FsOperationView::MoveFile { from: from@, to: to@ },
            FsOperation::CopyFile { from, to } => FsOperationView::CopyFile { from: from@, to: to@ },
            FsOperation::RemoveFile(p) => FsOperationView::RemoveFile(p@),
            FsOperation::CreateDir(p) => FsOperationView::CreateDir(p@),
            FsOperation::RemoveDir(p) => FsOperationView::RemoveDir(p@),
        }
    }
}

pub open spec fn op_views(v: Seq<FsOperation>) -> Seq<FsOperationView> {
    v.map_values(|o: FsOperation| o@)
}

/// The operations that apply (or redo) an action.
pub open spec fn forward_ops_spec(a: ActionView) -> Seq<FsOperationView> {
    match a {
        ActionView::MoveFile { source, target } => seq![
            FsOperationView::MoveFile { from: source, to: target },
        ],
        ActionView::CopyFile { source, target } => seq![
            FsOperationView::CopyFile { from: source, to: target },
        ],
        ActionView::RemoveFile(p) => seq![FsOperationView::RemoveFile(p)],
        ActionView::MakeDir(p) => seq![FsOperationView::CreateDir(p)],
        ActionView::RemoveDir(p) => seq![FsOperationView::RemoveDir(p)],
        ActionView::EditTagValues { .. } => seq![],
    }
}

/// The operations that undo an action. Removing a file is undone together
/// with the copy it belongs to.
pub open spec fn undo_ops_spec(a: ActionView) -> Seq<FsOperationView> {
    match a {
        ActionView::MoveFile { source, target } => seq![
            FsOperationView::MoveFile { from: target, to: source },
        ],
        ActionView::CopyFile { source, target } => seq![
            FsOperationView::CopyFile { from: target, to: source },
            FsOperationView::RemoveFile(target),
        ],
        ActionView::RemoveFile(_) => seq![],
        ActionView::MakeDir(p) => seq![FsOperationView::RemoveDir(p)],
        ActionView::RemoveDir(p) => seq![FsOperationView::CreateDir(p)],
        ActionView::EditTagValues { .. } => seq![],
    }
}

/// The actions a rename records, given how its move was carried out.
pub open spec fn actions_from_move_result_spec(ra: RenameActionView, result: MoveFileResult) -> Seq<
    ActionView,
> {
    if result == MoveFileResult::CopiedAndRemoved {
        seq![
            ActionView::CopyFile { source: ra.source, target: ra.target },
            ActionView::RemoveFile(ra.source),
        ]
    } else {
        seq![ActionView::MoveFile { source: ra.source, target: ra.target }]
    }
}

/// The actions a rename records: a copy and a removal when copying, else
/// what the move turned out to be.
pub fn actions_from_move_result(rename_action: &RenameAction, result: MoveFileResult) -> (r: Vec<
    Action,
>)
    ensures
        action_list_views(r@) == actions_from_move_result_spec(rename_action@, result),
{
    let mut v: Vec<Action> = Vec::new();
    if result == MoveFileResult::CopiedAndRemoved {
        v.push(Action::copy_from_rename_action(rename_action));
        v.push(Action::RemoveFile(rename_action.source().to_owned()));
    } else {
        v.push(Action::move_from_rename_action(rename_action));
    }
    assert(action_list_views(v@) =~= actions_from_move_result_spec(rename_action@, result));
    v
}

fn ops_of_action(a: &Action, undo: bool) -> (r: Vec<FsOperation>)
    ensures
        undo ==> op_views(r@) == undo_ops_spec(a@),
        !undo ==> op_views(r@) == forward_ops_spec(a@),
{
    let mut v: Vec<FsOperation> = Vec::new();
    match a {
        Action::MoveFile { source, target } => {
            if undo {
                v.push(FsOperation::MoveFile { from: target.clone(), to: source.clone() });
            } else {
                v.push(FsOperation::MoveFile { from: source.clone(), to: target.clone() });
            }
        },
        Action::CopyFile { source, target } => {
            if undo {
                v.push(FsOperation::CopyFile { from: target.clone(), to: source.clone() });
                v.push(FsOperation::RemoveFile(target.clone()));
            } else {
                v.push(FsOperation::CopyFile { from: source.clone(), to: target.clone() });
            }
        },
        Action::RemoveFile(p) => {
            if !undo {
                v.push(FsOperation::RemoveFile(p.clone()));
            }
        },
        Action::MakeDir(p) => {
            if undo {
                v.push(FsOperation::RemoveDir(p.clone()));
            } else {
                v.push(FsOperation::CreateDir(p.clone()));
            }
        },
        Action::RemoveDir(p) => {
            if undo {
                v.push(FsOperation::CreateDir(p.clone()));
            } else {
                v.push(FsOperation::RemoveDir(p.clone()));
            }
        },
        Action::EditTagValues { .. } => {},
    }
    assert(undo ==> op_views(v@) =~= undo_ops_spec(a@));
    assert(!undo ==> op_views(v@) =~= forward_ops_spec(a@));
    v
}

/// Carries out recorded actions: decides the file operations of renames,
/// applies, undoes and redoes actions.
#[derive(Debug, Clone, Copy)]
pub struct ActionHandler {
    move_mode: MoveMode,
}

impl ActionHandler {
    pub fn new() -> (r: Self)
        ensures
            r.mode() == MoveMode::Auto,
    {
        ActionHandler { move_mode: MoveMode::Auto }
    }

    pub closed spec fn mode(&self) -> MoveMode {
        self.move_mode
    }

    pub fn move_mode(self, move_mode: MoveMode) -> (r: Self)
        ensures
            r.mode() == move_mode,
    {
        ActionHandler { move_mode }
    }

    fn always_copy(&self) -> (r: bool)
        ensures
            r == (self.mode() == MoveMode::AlwaysCopy),
    {
        self.move_mode == MoveMode::AlwaysCopy
    }

    /// The operations that carry out a rename: a copy then removing the
    /// source when always copying, else a move.
    pub fn rename_operations(&self, rename_action: &RenameAction) -> (r: Vec<FsOperation>)
        ensures
            op_views(r@) == rename_ops_spec(rename_action@, self.mode()),
    {
        let mut v: Vec<FsOperation> = Vec::new();
        if self.always_copy() {
            v.push(
                FsOperation::CopyFile {
                    from: rename_action.source().to_owned(),
                    to: rename_action.target().to_owned(),
                },
            );
            v.push(FsOperation::RemoveFile(rename_action.source().to_owned()));
        } else {
            v.push(
                FsOperation::MoveFile {
                    from: rename_action.source().to_owned(),
                    to: rename_action.target().to_owned(),
                },
            );
        }
        assert(op_views(v@) =~= rename_ops_spec(rename_action@, self.mode()));
        v
    }

    /// The actions a performed rename records (`move_result` tells how the
    /// move went; it is not consulted when always copying).
    pub fn rename(&self, rename_action: &RenameAction, move_result: MoveFileResult) -> (r: Vec<
        Action,
    >)
        ensures
            action_list_views(r@) == recorded_actions_spec(
                rename_action@,
                self.mode(),
                move_result,
            ),
    {
        if self.always_copy() {
            actions_from_move_result(rename_action, MoveFileResult::CopiedAndRemoved)
        } else {
            actions_from_move_result(rename_action, move_result)
        }
    }

    /// The operations that apply an action.
    pub fn apply(&self, action: &Action) -> (r: Vec<FsOperation>)
        ensures
            op_views(r@) == forward_ops_spec(action@),
    {
        ops_of_action(action, false)
    }

    /// The operations that undo an action.
    pub fn undo(&self, action: &Action) -> (r: Vec<FsOperation>)
        ensures
            op_views(r@) == undo_ops_spec(action@),
    {
        ops_of_action(action, true)
    }

    /// The operations that redo an action: the same as applying it.
    pub fn redo(&self, action: &Action) -> (r: Vec<FsOperation>)
        ensures
            op_views(r@) == forward_ops_spec(action@),
    {
        ops_of_action(action, false)
    }
}

/// The operations of a rename in the given mode.
pub open spec fn rename_ops_spec(ra: RenameActionView, mode: MoveMode) -> Seq<FsOperationView> {
    if mode == MoveMode::AlwaysCopy {
        seq![
            FsOperationView::CopyFile { from: ra.source, to: ra.target },
            FsOperationView::RemoveFile(ra.source),
        ]
    } else {
        seq![FsOperationView::MoveFile { from: ra.source, to: ra.target }]
    }
}

/// The actions a rename records in the given mode.
pub open spec fn recorded_actions_spec(
    ra: RenameActionView,
    mode: MoveMode,
    result: MoveFileResult,
) -> Seq<ActionView> {
    if mode == MoveMode::AlwaysCopy {
        actions_from_move_result_spec(ra, MoveFileResult::CopiedAndRemoved)
    } else {
        actions_from_move_result_spec(ra, result)
    }
}

// ---------------------------------------------------------------------------
// What the operations do to the files
// ---------------------------------------------------------------------------
/// The file system (paths to contents) after one operation. Directories
/// are not modelled.
pub open spec fn apply_op(fs: Map<Seq<char>, int>, op: FsOperationView) -> Map<Seq<char>, int> {
    match op {
        FsOperationView::MoveFile { from, to } => if fs.dom().contains(from) {
            fs.remove(from).insert(to, fs[from])
        } else {
            fs
        },
        FsOperationView::CopyFile { from, to } => if fs.dom().contains(from) {
            fs.insert(to, fs[from])
        } else {
            fs
        },
        FsOperationView::RemoveFile(p) => fs.remove(p),
        _ => fs,
    }
}

/// The file system after the operations, in order.
pub open spec fn apply_ops(fs: Map<Seq<char>, int>, ops: Seq<FsOperationView>) -> Map<Seq<char>, int>
    decreases ops.len(),
{
    if ops.len() == 0 {
        fs
    } else {
        apply_op(apply_ops(fs, ops.drop_last()), ops.last())
    }
}

/// The operations that undo a record: each action undone, last first.
pub open spec fn undo_record_ops(actions: Seq<ActionView>) -> Seq<FsOperationView>
    decreases actions.len(),
{
    if actions.len() == 0 {
        seq![]
    } else {
        undo_ops_spec(actions.last()) + undo_record_ops(actions.drop_last())
    }
}

/// Undoing what a rename recorded restores the files: when the source
/// exists and the target does not, carrying out the rename (in either
/// mode, however the move went) and then undoing its recorded actions
/// gives back the original file system.
pub proof fn lemma_undo_restores_rename(
    fs: Map<Seq<char>, int>,
    ra: RenameActionView,
    mode: MoveMode,
    result: MoveFileResult,
)
    requires
        ra.source != ra.target,
        fs.dom().contains(ra.source),
        !fs.dom().contains(ra.target),
    ensures
        apply_ops(
            apply_ops(fs, rename_ops_spec(ra, mode)),
            undo_record_ops(recorded_actions_spec(ra, mode, result)),
        ) == fs,
{
    let s = ra.source;
    let t = ra.target;
    let v = fs[s];
    let ops = rename_ops_spec(ra, mode);
    let acts = recorded_actions_spec(ra, mode, result);
    let undo = undo_record_ops(acts);
    let after = apply_ops(fs, ops);
    if mode == MoveMode::AlwaysCopy {
        let first = seq![ops[0]];
        assert(ops.drop_last() =~= first);
        assert(first.drop_last() =~= Seq::<FsOperationView>::empty());
        assert(apply_ops(fs, first.drop_last()) == fs);
        assert(apply_ops(fs, first) == fs.insert(t, v));
        assert(after == fs.insert(t, v).remove(s));
    } else {
        assert(ops.drop_last() =~= Seq::<FsOperationView>::empty());
        assert(apply_ops(fs, ops.drop_last()) == fs);
        assert(after == fs.remove(s).insert(t, v));
    }
    assert(after.dom().contains(t) && after[t] == v);
    if mode == MoveMode::AlwaysCopy || result == MoveFileResult::CopiedAndRemoved {
        let a0 = seq![acts[0]];
        assert(acts.drop_last() =~= a0);
        assert(a0.drop_last() =~= Seq::<ActionView>::empty());
        assert(undo_record_ops(a0.drop_last()) =~= Seq::<FsOperationView>::empty());
        assert(undo_record_ops(a0) =~= undo_ops_spec(acts[0]));
        assert(undo_ops_spec(acts.last()) =~= Seq::<FsOperationView>::empty());
        assert(undo =~= seq![
            FsOperationView::CopyFile { from: t, to: s },
            FsOperationView::RemoveFile(t),
        ]);
        let u0 = seq![undo[0]];
        assert(undo.drop_last() =~= u0);
        assert(u0.drop_last() =~= Seq::<FsOperationView>::empty());
        assert(apply_ops(after, u0.drop_last()) == after);
        assert(apply_ops(after, u0) == after.insert(s, v));
        assert(apply_ops(after, undo) == after.insert(s, v).remove(t));
    } else {
        assert(acts.drop_last() =~= Seq::<ActionView>::empty());
        assert(undo_record_ops(acts.drop_last()) =~= Seq::<FsOperationView>::empty());
        assert(undo =~= seq![FsOperationView::MoveFile { from: t, to: s }]);
        assert(undo.drop_last() =~= Seq::<FsOperationView>::empty());
        assert(apply_ops(after, undo.drop_last()) == after);
        assert(apply_ops(after, undo) == after.remove(t).insert(s, v));
    }
    assert(apply_ops(after, undo) =~= fs);
}

/// What applying (or redoing) a file action does to the files: a move
/// takes the source's contents to the target and leaves no source, a copy
/// puts the source's contents at the target and keeps the source, and
/// removing a file takes it away; nothing else changes.
pub proof fn lemma_forward_ops_effect(fs: Map<Seq<char>, int>, source: Seq<char>, target: Seq<char>)
    requires
        fs.dom().contains(source),
    ensures
        apply_ops(fs, forward_ops_spec(ActionView::MoveFile { source, target })) == fs.remove(
            source,
        ).insert(target, fs[source]),
        apply_ops(fs, forward_ops_spec(ActionView::CopyFile { source, target })) == fs.insert(
            target,
            fs[source],
        ),
        apply_ops(fs, forward_ops_spec(ActionView::RemoveFile(source))) == fs.remove(source),
{
    let mv = forward_ops_spec(ActionView::MoveFile { source, target });
    let cp = forward_ops_spec(ActionView::CopyFile { source, target });
    let rm = forward_ops_spec(ActionView::RemoveFile(source));
    assert(mv.drop_last() =~= Seq::<FsOperationView>::empty());
    assert(cp.drop_last() =~= Seq::<FsOperationView>::empty());
    assert(rm.drop_last() =~= Seq::<FsOperationView>::empty());
    assert(apply_ops(fs, mv.drop_last()) == fs);
    assert(apply_ops(fs, cp.drop_last()) == fs);
    assert(apply_ops(fs, mv) =~= fs.remove(source).insert(target, fs[source]));
    assert(apply_ops(fs, cp) =~= fs.insert(target, fs[source]));
}

/// Redoing a copy after undoing it gives back what the copy made: the
/// target again holds the source's contents, whatever the target held
/// before.
pub proof fn lemma_redo_after_undo_of_copy(
    fs: Map<Seq<char>, int>,
    source: Seq<char>,
    target: Seq<char>,
)
    requires
        fs.dom().contains(source),
        source != target,
    ensures
        ({
            let copy = ActionView::CopyFile { source, target };
            let applied = apply_ops(fs, forward_ops_spec(copy));
            let redone = apply_ops(apply_ops(applied, undo_ops_spec(copy)), forward_ops_spec(copy));
            &&& redone == applied
            &&& redone.dom().contains(target)
            &&& redone[target] == fs[source]
            &&& redone[source] == fs[source]
        }),
{
    let copy = ActionView::CopyFile { source, target };
    lemma_forward_ops_effect(fs, source, target);
    let applied = apply_ops(fs, forward_ops_spec(copy));
    let undo = undo_ops_spec(copy);
    let u0 = seq![undo[0]];
    assert(undo.drop_last() =~= u0);
    assert(u0.drop_last() =~= Seq::<FsOperationView>::empty());
    assert(applied.dom().contains(target) && applied[target] == fs[source]);
    assert(apply_ops(applied, u0.drop_last()) == applied);
    assert(apply_ops(applied, u0) =~= applied.insert(source, fs[source]));
    let undone = apply_ops(applied, undo);
    assert(undone == applied.insert(source, fs[source]).remove(target));
    assert(undone.dom().contains(source) && undone[source] == fs[source]);
    lemma_forward_ops_effect(undone, source, target);
    assert(apply_ops(undone, forward_ops_spec(copy)) =~= applied);
}

} // verus!
