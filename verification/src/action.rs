//! The actions a rename run performs and records.

use crate::text::{to_lowercase, unicode_lowercase};
use vstd::prelude::*;

verus! {

/// Moving one file (`source`) to a new path (`target`).
#[derive(Debug)]
pub struct RenameAction {
    source: String,
    target: String,
}

/// Mathematical view of a [`RenameAction`].
pub struct RenameActionView {
    pub source: Seq<char>,
    pub target: Seq<char>,
}

impl View for RenameAction {
    type V = RenameActionView;

    closed spec fn view(&self) -> RenameActionView {
        RenameActionView { source: self.source@, target: self.target@ }
    }
}

impl Clone for RenameAction {
    fn clone(&self) -> (r: Self)
        ensures
            r@ == self@,
    {
        RenameAction { source: self.source.clone(), target: self.target.clone() }
    }
}

impl RenameAction {
    pub fn new(source: String, target: String) -> (r: Self)
        ensures
            r@.source == source@,
            r@.target == target@,
    {
        RenameAction { source, target }
    }

    pub fn source(&self) -> (r: &str)
        ensures
            r@ == self@.source,
    {
        self.source.as_str()
    }

    pub fn target(&self) -> (r: &str)
        ensures
            r@ == self@.target,
    {
        self.target.as_str()
    }
}

/// The renames whose target differs from their source, in order.
pub open spec fn changing(v: Seq<RenameActionView>) -> Seq<RenameActionView>
    decreases v.len(),
{
    if v.len() == 0 {
        seq![]
    } else {
        changing(v.drop_last()) + if v.last().source != v.last().target {
            seq![v.last()]
        } else {
            seq![]
        }
    }
}

/// The sources of the renames whose target is their source, in order.
pub open spec fn unchanged(v: Seq<RenameActionView>) -> Seq<Seq<char>>
    decreases v.len(),
{
    if v.len() == 0 {
        seq![]
    } else {
        unchanged(v.drop_last()) + if v.last().source == v.last().target {
            seq![v.last().source]
        } else {
            seq![]
        }
    }
}

pub open spec fn rename_views(v: Seq<RenameAction>) -> Seq<RenameActionView> {
    v.map_values(|a: RenameAction| a@)
}

impl RenameAction {
    /// Splits renames into those that move a file and the files that
    /// already are where the template puts them.
    pub fn separate_unchanged_destinations(actions: Vec<RenameAction>) -> (r: (
        Vec<RenameAction>,
        Vec<String>,
    ))
        ensures
            rename_views(r.0@) == changing(rename_views(actions@)),
            r.1@.map_values(|s: String| s@) == unchanged(rename_views(actions@)),
    {
        let ghost av = rename_views(actions@);
        let mut moving: Vec<RenameAction> = Vec::new();
        let mut kept: Vec<String> = Vec::new();
        let mut i: usize = 0;
        while i < actions.len()
            invariant
                i <= actions@.len(),
                av == rename_views(actions@),
                rename_views(moving@) == changing(av.take(i as int)),
                kept@.map_values(|s: String| s@) == unchanged(av.take(i as int)),
            decreases actions.len() - i,
        {
            assert(av.take(i + 1).drop_last() =~= av.take(i as int));
            assert(av.take(i + 1).last() == actions@[i as int]@);
            let s = crate::text::chars_of(actions[i].source());
            let t = crate::text::chars_of(actions[i].target());
            if crate::text::chars_eq(&s, &t) {
                let ghost before = kept@.map_values(|x: String| x@);
                kept.push(actions[i].source().to_owned());
                assert(kept@.map_values(|x: String| x@) =~= before.push(actions@[i as int]@.source));
                assert(rename_views(moving@) =~= changing(av.take(i + 1)));
            } else {
                let ghost before = rename_views(moving@);
                moving.push(actions[i].clone());
                assert(rename_views(moving@) =~= before.push(actions@[i as int]@));
                assert(kept@.map_values(|x: String| x@) =~= unchanged(av.take(i + 1)));
            }
            i = i + 1;
        }
        assert(av.take(actions@.len() as int) =~= av);
        (moving, kept)
    }
}

/// Every rename either moves a file or leaves it where it is.
pub proof fn lemma_separation_keeps_every_rename(v: Seq<RenameActionView>)
    ensures
        changing(v).len() + unchanged(v).len() == v.len(),
    decreases v.len(),
{
    if v.len() > 0 {
        lemma_separation_keeps_every_rename(v.drop_last());
    }
}

/// Kind of a tag value.
#[derive(Debug, Clone, Copy, PartialEq, Eq)]
pub enum TagValueKind {
    Text,
    Locator,
}

/// A change of one tag value of an audio file.
#[derive(Debug)]
pub struct TagValueChange {
    key: String,
    kind: TagValueKind,
    old_value: String,
    new_value: String,
}

/// Mathematical view of a [`TagValueChange`].
pub struct TagValueChangeView {
    pub key: Seq<char>,
    pub kind: TagValueKind,
    pub old_value: Seq<char>,
    pub new_value: Seq<char>,
}

impl View for TagValueChange {
    type V = TagValueChangeView;

    closed spec fn view(&self) -> TagValueChangeView {
        TagValueChangeView {
            key: self.key@,
            kind: self.kind,
            old_value: self.old_value@,
            new_value: self.new_value@,
        }
    }
}

impl Clone for TagValueChange {
    fn clone(&self) -> (r: Self)
        ensures
            r@ == self@,
    {
        TagValueChange {
            key: self.key.clone(),
            kind: self.kind,
            old_value: self.old_value.clone(),
            new_value: self.new_value.clone(),
        }
    }
}

impl TagValueChange {
    pub fn new(key: String, kind: TagValueKind, old_value: String, new_value: String) -> (r: Self)
        ensures
            r@ == (TagValueChangeView {
                key: key@,
                kind: kind,
                old_value: old_value@,
                new_value: new_value@,
            }),
    {
        TagValueChange { key, kind, old_value, new_value }
    }

    pub fn key(&self) -> (r: &str)
        ensures
            r@ == self@.key,
    {
        self.key.as_str()
    }

    pub fn kind(&self) -> (r: &TagValueKind)
        ensures
            *r == self@.kind,
    {
        &self.kind
    }

    pub fn old_value(&self) -> (r: &str)
        ensures
            r@ == self@.old_value,
    {
        self.old_value.as_str()
    }

    pub fn new_value(&self) -> (r: &str)
        ensures
            r@ == self@.new_value,
    {
        self.new_value.as_str()
    }
}

/// One filesystem (or tag) action of a run, as it is recorded in the history.
#[derive(Debug)]
pub enum Action {
    MoveFile { source: String, target: String },
    CopyFile { source: String, target: String },
    RemoveFile(String),
    MakeDir(String),
    RemoveDir(String),
    EditTagValues { path: String, changes: Vec<TagValueChange> },
}

/// Mathematical view of an [`Action`].
pub enum ActionView {
    MoveFile { source: Seq<char>, target: Seq<char> },
    CopyFile { source: Seq<char>, target: Seq<char> },
    RemoveFile(Seq<char>),
    MakeDir(Seq<char>),
    RemoveDir(Seq<char>),
    EditTagValues { path: Seq<char>, changes: Seq<TagValueChangeView> },
}

impl View for Action {
    type V = ActionView;

    open spec fn view(&self) -> ActionView {
        match self {
            Action::MoveFile { source, target } => ActionView::MoveFile {
                source: source@,
                target: target@,
            },
            Action::CopyFile { source, target } => ActionView::CopyFile {
                source: source@,
                target: target@,
            },
            Action::RemoveFile(p) => ActionView::RemoveFile(p@),
            Action::MakeDir(p) => ActionView::MakeDir(p@),
            Action::RemoveDir(p) => ActionView::RemoveDir(p@),
            Action::EditTagValues { path, changes } => ActionView::EditTagValues {
                path: path@,
                changes: changes@.map_values(|c: TagValueChange| c@),
            },
        }
    }
}

fn clone_changes(changes: &Vec<TagValueChange>) -> (r: Vec<TagValueChange>)
    ensures
        r@.map_values(|c: TagValueChange| c@) == changes@.map_values(|c: TagValueChange| c@),
{
    let mut r: Vec<TagValueChange> = Vec::new();
    let mut i: usize = 0;
    while i < changes.len()
        invariant
            i <= changes.len(),
            r@.len() == i,
            forall|j: int| 0 <= j < i ==> (#[trigger] r@[j])@ == changes@[j]@,
        decreases changes.len() - i,
    {
        r.push(changes[i].clone());
        i = i + 1;
    }
    assert(r@.map_values(|c: TagValueChange| c@) =~= changes@.map_values(|c: TagValueChange| c@));
    r
}

impl Clone for Action {
    fn clone(&self) -> (r: Self)
        ensures
            r@ == self@,
    {
        match self {
            Action::MoveFile { source, target } => Action::MoveFile {
                source: source.clone(),
                target: target.clone(),
            },
            Action::CopyFile { source, target } => Action::CopyFile {
                source: source.clone(),
                target: target.clone(),
            },
            Action::RemoveFile(p) => Action::RemoveFile(p.clone()),
            Action::MakeDir(p) => Action::MakeDir(p.clone()),
            Action::RemoveDir(p) => Action::RemoveDir(p.clone()),
            Action::EditTagValues { path, changes } => Action::EditTagValues {
                path: path.clone(),
                changes: clone_changes(changes),
            },
        }
    }
}

/// The source path of an action that moves or copies a file.
pub open spec fn action_source(a: ActionView) -> Option<Seq<char>> {
    match a {
        ActionView::MoveFile { source, .. } => Some(source),
        ActionView::CopyFile { source, .. } => Some(source),
        _ => None,
    }
}

/// The path an action produces or acts on.
pub open spec fn action_target(a: ActionView) -> Seq<char> {
    match a {
        ActionView::MoveFile { target, .. } => target,
        ActionView::CopyFile { target, .. } => target,
        ActionView::RemoveFile(p) => p,
        ActionView::MakeDir(p) => p,
        ActionView::RemoveDir(p) => p,
        ActionView::EditTagValues { path, .. } => path,
    }
}

/// Whether an action moves or copies a file.
pub open spec fn is_rename_action_spec(a: ActionView) -> bool {
    a is MoveFile || a is CopyFile
}

impl Action {
    /// The copy recorded for a rename that copied its source to its target.
    pub fn copy_from_rename_action(rename_action: &RenameAction) -> (r: Self)
        ensures
            r@ == (ActionView::CopyFile {
                source: rename_action@.source,
                target: rename_action@.target,
            }),
    {
        Action::CopyFile {
            source: rename_action.source().to_owned(),
            target: rename_action.target().to_owned(),
        }
    }

    /// The move recorded for a rename that moved its source to its target.
    pub fn move_from_rename_action(rename_action: &RenameAction) -> (r: Self)
        ensures
            r@ == (ActionView::MoveFile {
                source: rename_action@.source,
                target: rename_action@.target,
            }),
    {
        Action::MoveFile {
            source: rename_action.source().to_owned(),
            target: rename_action.target().to_owned(),
        }
    }

    pub fn is_rename_action(&self) -> (r: bool)
        ensures
            r == is_rename_action_spec(self@),
    {
        match self {
            Action::MoveFile { .. } | Action::CopyFile { .. } => true,
            _ => false,
        }
    }

    pub fn source(&self) -> (r: Option<&str>)
        ensures
            r matches Some(s) ==> action_source(self@) == Some(s@),
            r is None ==> action_source(self@) is None,
    {
        match self {
            Action::CopyFile { source, .. } | Action::MoveFile { source, .. } => Some(
                source.as_str(),
            ),
            _ => None,
        }
    }

    pub fn target(&self) -> (r: &str)
        ensures
            r@ == action_target(self@),
    {
        match self {
            Action::CopyFile { target, .. } | Action::MoveFile { target, .. } => target.as_str(),
            Action::RemoveFile(path) | Action::MakeDir(path) | Action::RemoveDir(path) => {
                path.as_str()
            },
            Action::EditTagValues { path, .. } => path.as_str(),
        }
    }
}

/// A path compared without regard to letter case: the Unicode lowercase
/// form of its text.
#[derive(Debug)]
pub struct CaseInsensitivePathKey(String);

impl View for CaseInsensitivePathKey {
    type V = Seq<char>;

    closed spec fn view(&self) -> Seq<char> {
        self.0@
    }
}

impl CaseInsensitivePathKey {
    pub fn new(path: &str) -> (r: Self)
        ensures
            r@ == unicode_lowercase(path@),
    {
        CaseInsensitivePathKey(to_lowercase(path))
    }

    /// Whether two keys are equal.
    pub fn same_key(&self, other: &Self) -> (r: bool)
        ensures
            r == (self@ == other@),
    {
        self.0 == other.0
    }
}

/// A set of paths compared without regard to letter case.
#[derive(Debug)]
pub struct CaseInsensitivePathSet {
    keys: Vec<CaseInsensitivePathKey>,
}

impl View for CaseInsensitivePathSet {
    type V = Set<Seq<char>>;

    closed spec fn view(&self) -> Set<Seq<char>> {
        Set::new(|k: Seq<char>| exists|i: int| 0 <= i < self.keys@.len() && self.keys@[i]@ == k)
    }
}

impl CaseInsensitivePathSet {
    pub fn new() -> (r: Self)
        ensures
            r@ == Set::<Seq<char>>::empty(),
    {
        let r = CaseInsensitivePathSet { keys: Vec::new() };
        assert(r@ =~= Set::<Seq<char>>::empty());
        r
    }

    fn position(&self, key: &CaseInsensitivePathKey) -> (r: Option<usize>)
        ensures
            r is Some <==> self@.contains(key@),
            r matches Some(i) ==> i < self.keys@.len() && self.keys@[i as int]@ == key@,
    {
        let mut i: usize = 0;
        while i < self.keys.len()
            invariant
                i <= self.keys@.len(),
                forall|j: int| 0 <= j < i ==> self.keys@[j]@ != key@,
            decreases self.keys.len() - i,
        {
            if self.keys[i].same_key(key) {
                assert(self@.contains(key@));
                return Some(i);
            }
            i = i + 1;
        }
        None
    }

    /// Adds the case-insensitive key of `path`; true when it was not there yet.
    pub fn insert(&mut self, path: &str) -> (r: bool)
        ensures
            r == !old(self)@.contains(unicode_lowercase(path@)),
            final(self)@ == old(self)@.insert(unicode_lowercase(path@)),
    {
        let key = CaseInsensitivePathKey::new(path);
        match self.position(&key) {
            Some(_) => {
                assert(self@ =~= old(self)@.insert(unicode_lowercase(path@)));
                false
            },
            None => {
                self.keys.push(key);
                assert(self@ =~= old(self)@.insert(unicode_lowercase(path@))) by {
                    assert forall|k: Seq<char>| self@.contains(k) <==> old(self)@.insert(
                        unicode_lowercase(path@),
                    ).contains(k) by {
                        if old(self)@.contains(k) {
                            let j = choose|j: int|
                                0 <= j < old(self).keys@.len() && old(self).keys@[j]@ == k;
                            assert(self.keys@[j] == old(self).keys@[j]);
                        }
                        if self@.contains(k) && k != unicode_lowercase(path@) {
                            let j = choose|j: int| 0 <= j < self.keys@.len() && self.keys@[j]@ == k;
                            assert(j < old(self).keys@.len());
                            assert(self.keys@[j] == old(self).keys@[j]);
                        }
                        if k == unicode_lowercase(path@) {
                            assert(self.keys@[self.keys@.len() - 1]@ == k);
                        }
                    }
                }
                true
            },
        }
    }

    /// Whether the case-insensitive key of `path` is in the set.
    pub fn contains(&self, path: &str) -> (r: bool)
        ensures
            r == self@.contains(unicode_lowercase(path@)),
    {
        let key = CaseInsensitivePathKey::new(path);
        self.position(&key).is_some()
    }
}

/// The view of a set of paths after `paths` are inserted, one by one and
/// in order, into a set whose view is `start`, following the contract of
/// [`CaseInsensitivePathSet::insert`].
pub open spec fn after_inserts(start: Set<Seq<char>>, paths: Seq<Seq<char>>) -> Set<Seq<char>>
    decreases paths.len(),
{
    if paths.len() == 0 {
        start
    } else {
        after_inserts(start, paths.drop_last()).insert(unicode_lowercase(paths.last()))
    }
}

/// A set made by [`CaseInsensitivePathSet::new`] and any number of
/// insertions holds a path exactly when some inserted path equals it
/// ignoring case.
pub proof fn lemma_set_holds_inserted_paths(paths: Seq<Seq<char>>, query: Seq<char>)
    ensures
        after_inserts(Set::empty(), paths).contains(unicode_lowercase(query)) <==> exists|i: int|
            0 <= i < paths.len() && #[trigger] unicode_lowercase(paths[i]) == unicode_lowercase(
                query,
            ),
    decreases paths.len(),
{
    if paths.len() > 0 {
        let init = paths.drop_last();
        lemma_set_holds_inserted_paths(init, query);
        if after_inserts(Set::empty(), paths).contains(unicode_lowercase(query)) {
            if unicode_lowercase(paths.last()) == unicode_lowercase(query) {
                assert(unicode_lowercase(paths[paths.len() - 1]) == unicode_lowercase(query));
            } else {
                let i = choose|i: int|
                    0 <= i < init.len() && #[trigger] unicode_lowercase(init[i])
                        == unicode_lowercase(query);
                assert(paths[i] == init[i]);
            }
        }
        if exists|i: int|
            0 <= i < paths.len() && #[trigger] unicode_lowercase(paths[i]) == unicode_lowercase(
                query,
            ) {
            let i = choose|i: int|
                0 <= i < paths.len() && #[trigger] unicode_lowercase(paths[i]) == unicode_lowercase(
                    query,
                );
            if i < init.len() {
                assert(init[i] == paths[i]);
            }
        }
    }
}

} // verus!
