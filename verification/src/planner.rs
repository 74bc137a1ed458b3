//! Planning the moves of a rename run. When a target is also a source
//! (a rename cycle, or a case-only rename), every file is first moved to a
//! fresh temporary path and only then to its target.

use crate::action::{Action, ActionView, CaseInsensitivePathSet, RenameAction, RenameActionView};
use crate::paths::{join, utf8_join};
use crate::text::{
    decimal_spec, push_all, push_str, string_from_chars, unicode_lowercase, usize_to_decimal,
};
use crate::validation::action_views;
use vstd::prelude::*;

verus! {

/// One step of a planned run: a recorded action, or a rename to perform.
#[derive(Debug)]
pub enum PlannedAction {
    Action(Action),
    Rename(RenameAction),
}

/// Mathematical view of a [`PlannedAction`].
pub enum PlannedActionView {
    Action(ActionView),
    Rename(RenameActionView),
}

impl View for PlannedAction {
    type V = PlannedActionView;

    open spec fn view(&self) -> PlannedActionView {
        match self {
            PlannedAction::Action(a) => PlannedActionView::Action(a@),
            PlannedAction::Rename(r) => PlannedActionView::Rename(r@),
        }
    }
}

pub open spec fn planned_views(v: Seq<PlannedAction>) -> Seq<PlannedActionView> {
    v.map_values(|p: PlannedAction| p@)
}

/// Whether some target is, ignoring case, also a source.
pub open spec fn needs_staging_spec(av: Seq<RenameActionView>) -> bool {
    exists|i: int, j: int|
        0 <= i < av.len() && 0 <= j < av.len() && unicode_lowercase(#[trigger] av[i].target)
            == unicode_lowercase(#[trigger] av[j].source)
}

/// Whether the renames must go through temporary paths: some target is,
/// ignoring case, also a source.
pub fn needs_temporary_staging(rename_actions: &[RenameAction]) -> (r: bool)
    ensures
        r == needs_staging_spec(action_views(rename_actions@)),
{
    let ghost av = action_views(rename_actions@);
    let mut sources = CaseInsensitivePathSet::new();
    let mut i: usize = 0;
    while i < rename_actions.len()
        invariant
            i <= rename_actions@.len(),
            av == action_views(rename_actions@),
            forall|k: Seq<char>|
                sources@.contains(k) <==> exists|j: int|
                    0 <= j < i && k == unicode_lowercase(#[trigger] av[j].source),
        decreases rename_actions.len() - i,
    {
        assert(av[i as int] == rename_actions@[i as int]@);
        sources.insert(rename_actions[i].source());
        assert forall|k: Seq<char>|
            sources@.contains(k) <==> exists|j: int|
                0 <= j < i + 1 && k == unicode_lowercase(#[trigger] av[j].source) by {
            if k == unicode_lowercase(av[i as int].source) {
                assert(0 <= i < i + 1 && k == unicode_lowercase(av[i as int].source));
            }
        }
        i = i + 1;
    }
    let mut t: usize = 0;
    while t < rename_actions.len()
        invariant
            t <= rename_actions@.len(),
            av == action_views(rename_actions@),
            forall|k: Seq<char>|
                sources@.contains(k) <==> exists|j: int|
                    0 <= j < av.len() && k == unicode_lowercase(#[trigger] av[j].source),
            forall|i2: int, j2: int|
                0 <= i2 < t && 0 <= j2 < av.len() ==> unicode_lowercase(#[trigger] av[i2].target)
                    != unicode_lowercase(#[trigger] av[j2].source),
        decreases rename_actions.len() - t,
    {
        assert(av[t as int] == rename_actions@[t as int]@);
        if sources.contains(rename_actions[t].target()) {
            let ghost k = unicode_lowercase(av[t as int].target);
            assert(sources@.contains(k));
            let ghost j = choose|j: int| 0 <= j < av.len() && k == unicode_lowercase(#[trigger] av[j].source);
            assert(unicode_lowercase(av[t as int].target) == unicode_lowercase(av[j].source));
            return true;
        }
        t = t + 1;
    }
    false
}

/// The case-insensitive keys of every source and target.
pub open spec fn reserved_keys(av: Seq<RenameActionView>) -> Set<Seq<char>> {
    Set::new(
        |k: Seq<char>|
            exists|i: int|
                0 <= i < av.len() && (k == unicode_lowercase(#[trigger] av[i].source) || k
                    == unicode_lowercase(av[i].target)),
    )
}

/// The file name of the temporary path for the `index`-th rename of process
/// `pid`, at the given attempt.
pub open spec fn temporary_name(pid: nat, index: nat, attempt: nat) -> Seq<char> {
    ".tfmt-"@ + decimal_spec(pid) + "-"@ + decimal_spec(index) + "-"@ + decimal_spec(attempt)
}

/// The staged plan: every source moves to its temporary path, then every
/// temporary path moves to its target.
pub open spec fn staged_plan(av: Seq<RenameActionView>, temps: Seq<Seq<char>>) -> Seq<
    PlannedActionView,
> {
    Seq::new(
        av.len(),
        |i: int|
            PlannedActionView::Action(
                ActionView::MoveFile { source: av[i].source, target: temps[i] },
            ),
    ) + Seq::new(
        av.len(),
        |i: int|
            PlannedActionView::Action(
                ActionView::MoveFile { source: temps[i], target: av[i].target },
            ),
    )
}

/// Plans renames through temporary paths that collide (ignoring case) with
/// no source, no target and no other temporary path.
#[derive(Debug)]
pub struct StagedRenamePlanner {
    reserved_paths: CaseInsensitivePathSet,
}

impl View for StagedRenamePlanner {
    type V = Set<Seq<char>>;

    closed spec fn view(&self) -> Set<Seq<char>> {
        self.reserved_paths@
    }
}

impl StagedRenamePlanner {
    /// A planner that has reserved every source and target.
    pub fn new(rename_actions: &[RenameAction]) -> (r: Self)
        ensures
            r@ == reserved_keys(action_views(rename_actions@)),
    {
        let ghost av = action_views(rename_actions@);
        let mut reserved_paths = CaseInsensitivePathSet::new();
        let mut i: usize = 0;
        while i < rename_actions.len()
            invariant
                i <= rename_actions@.len(),
                av == action_views(rename_actions@),
                reserved_paths@ == reserved_keys(av.take(i as int)),
            decreases rename_actions.len() - i,
        {
            assert(av[i as int] == rename_actions@[i as int]@);
            assert(av.len() == rename_actions@.len());
            reserved_paths.insert(rename_actions[i].source());
            reserved_paths.insert(rename_actions[i].target());
            assert(reserved_paths@ =~= reserved_keys(av.take(i + 1))) by {
                assert forall|k: Seq<char>| reserved_paths@.contains(k) <==> reserved_keys(
                    av.take(i + 1),
                ).contains(k) by {
                    let t0 = av.take(i as int);
                    let t1 = av.take(i + 1);
                    if reserved_keys(t0).contains(k) {
                        let j = choose|j: int|
                            0 <= j < t0.len() && (k == unicode_lowercase(#[trigger] t0[j].source)
                                || k == unicode_lowercase(t0[j].target));
                        assert(t1[j] == t0[j]);
                    }
                    if reserved_keys(t1).contains(k) {
                        let j = choose|j: int|
                            0 <= j < t1.len() && (k == unicode_lowercase(#[trigger] t1[j].source)
                                || k == unicode_lowercase(t1[j].target));
                        if j < i {
                            assert(t0[j] == t1[j]);
                        }
                    }
                    assert(t1[i as int] == av[i as int]);
                }
            }
            i = i + 1;
        }
        assert(av.take(rename_actions.len() as int) =~= av);
        StagedRenamePlanner { reserved_paths }
    }

    /// The candidate temporary path in `parent` for the `index`-th rename of
    /// process `process_id`, at attempt `attempt`.
    pub fn temporary_candidate(parent: &str, process_id: u32, index: usize, attempt: usize) -> (r:
        String)
        ensures
            r@ == utf8_join(parent@, temporary_name(process_id as nat, index as nat, attempt as nat)),
    {
        let mut name: Vec<char> = Vec::new();
        push_str(&mut name, ".tfmt-");
        let p = usize_to_decimal(process_id as usize);
        push_all(&mut name, &p);
        push_str(&mut name, "-");
        let i = usize_to_decimal(index);
        push_all(&mut name, &i);
        push_str(&mut name, "-");
        let a = usize_to_decimal(attempt);
        push_all(&mut name, &a);
        let name_string = string_from_chars(name.as_slice());
        join(parent, name_string.as_str())
    }

    /// The candidate temporary path of the `index`-th rename, whose source
    /// is `source`: next to the source (in the current folder when the
    /// source has no parent).
    pub fn temporary_candidate_for(source: &str, process_id: u32, index: usize, attempt: usize) -> (r:
        String)
        ensures
            r@ == utf8_join(
                match crate::paths::utf8_parent(source@) {
                    Some(p) => p,
                    None => seq![],
                },
                temporary_name(process_id as nat, index as nat, attempt as nat),
            ),
    {
        let parent = match crate::paths::parent(source) {
            Some(p) => p,
            None => String::new(),
        };
        Self::temporary_candidate(parent.as_str(), process_id, index, attempt)
    }

    /// Takes `candidate` as a temporary path when no file exists there and
    /// its case-insensitive key is not reserved yet; it is then reserved.
    pub fn try_reserve(&mut self, candidate: &str, exists_on_disk: bool) -> (r: bool)
        ensures
            r == (!exists_on_disk && !old(self)@.contains(unicode_lowercase(candidate@))),
            exists_on_disk ==> final(self)@ == old(self)@,
            !exists_on_disk ==> final(self)@ == old(self)@.insert(unicode_lowercase(candidate@)),
    {
        if exists_on_disk {
            false
        } else {
            self.reserved_paths.insert(candidate)
        }
    }

    /// The staged moves for `rename_actions`, whose temporary paths are
    /// `temporary_paths` (one per rename, in order).
    pub fn plan(self, rename_actions: Vec<RenameAction>, temporary_paths: Vec<String>) -> (r: Vec<
        PlannedAction,
    >)
        requires
            temporary_paths@.len() == rename_actions@.len(),
        ensures
            planned_views(r@) == staged_plan(
                action_views(rename_actions@),
                temporary_paths@.map_values(|s: String| s@),
            ),
    {
        let ghost av = action_views(rename_actions@);
        let ghost tv = temporary_paths@.map_values(|s: String| s@);
        let n = rename_actions.len();
        let mut out: Vec<PlannedAction> = Vec::new();
        let mut i: usize = 0;
        while i < n
            invariant
                n == rename_actions@.len(),
                n == temporary_paths@.len(),
                i <= n,
                av == action_views(rename_actions@),
                tv == temporary_paths@.map_values(|s: String| s@),
                planned_views(out@) == staged_plan(av, tv).take(i as int),
            decreases n - i,
        {
            assert(av[i as int] == rename_actions@[i as int]@);
            assert(tv[i as int] == temporary_paths@[i as int]@);
            let ghost before = planned_views(out@);
            let source = rename_actions[i].source().to_owned();
            let temp = temporary_paths[i].clone();
            let item = PlannedAction::Action(Action::MoveFile { source, target: temp });
            assert(item@ == staged_plan(av, tv)[i as int]);
            out.push(item);
            assert(planned_views(out@) =~= before.push(item@));
            assert(planned_views(out@) =~= staged_plan(av, tv).take(i + 1));
            i = i + 1;
        }
        let mut j: usize = 0;
        while j < n
            invariant
                n == rename_actions@.len(),
                n == temporary_paths@.len(),
                j <= n,
                av == action_views(rename_actions@),
                tv == temporary_paths@.map_values(|s: String| s@),
                planned_views(out@) == staged_plan(av, tv).take(n + j),
            decreases n - j,
        {
            assert(av[j as int] == rename_actions@[j as int]@);
            assert(tv[j as int] == temporary_paths@[j as int]@);
            let ghost before = planned_views(out@);
            let temp = temporary_paths[j].clone();
            let target = rename_actions[j].target().to_owned();
            let item = PlannedAction::Action(Action::MoveFile { source: temp, target });
            assert(item@ == staged_plan(av, tv)[n + j]);
            out.push(item);
            assert(planned_views(out@) =~= before.push(item@));
            assert(planned_views(out@) =~= staged_plan(av, tv).take(n + j + 1));
            j = j + 1;
        }
        assert(staged_plan(av, tv).take(n + n) =~= staged_plan(av, tv));
        out
    }
}

/// The moves of a run: staged through temporary paths when needed, else one
/// rename per action.
pub open spec fn planned_moves(av: Seq<RenameActionView>, temps: Option<Seq<Seq<char>>>) -> Seq<
    PlannedActionView,
> {
    if needs_staging_spec(av) {
        staged_plan(av, temps->0)
    } else {
        Seq::new(av.len(), |i: int| PlannedActionView::Rename(av[i]))
    }
}

/// The moves of a run; `temporary_paths` holds one reserved temporary path
/// per rename when the renames need staging.
pub fn plan_move_actions(
    rename_actions: Vec<RenameAction>,
    temporary_paths: Option<Vec<String>>,
) -> (r: Vec<PlannedAction>)
    requires
        needs_staging_spec(action_views(rename_actions@)) ==> (temporary_paths matches Some(t)
            && t@.len() == rename_actions@.len()),
    ensures
        planned_views(r@) == planned_moves(
            action_views(rename_actions@),
            match temporary_paths {
                Some(t) => Some(t@.map_values(|s: String| s@)),
                None => None,
            },
        ),
{
    let ghost av = action_views(rename_actions@);
    if needs_temporary_staging(rename_actions.as_slice()) {
        match temporary_paths {
            Some(t) => {
                let planner = StagedRenamePlanner::new(rename_actions.as_slice());
                planner.plan(rename_actions, t)
            },
            None => Vec::new(),
        }
    } else {
        let mut out: Vec<PlannedAction> = Vec::new();
        let mut i: usize = 0;
        while i < rename_actions.len()
            invariant
                i <= rename_actions@.len(),
                av == action_views(rename_actions@),
                planned_views(out@) == Seq::new(
                    av.len(),
                    |k: int| PlannedActionView::Rename(av[k]),
                ).take(i as int),
            decreases rename_actions.len() - i,
        {
            assert(av[i as int] == rename_actions@[i as int]@);
            let ghost before = planned_views(out@);
            let item = PlannedAction::Rename(rename_actions[i].clone());
            out.push(item);
            assert(planned_views(out@) =~= before.push(PlannedActionView::Rename(av[i as int])));
            assert(planned_views(out@) =~= Seq::new(
                av.len(),
                |k: int| PlannedActionView::Rename(av[k]),
            ).take(i + 1));
            i = i + 1;
        }
        assert(Seq::new(av.len(), |k: int| PlannedActionView::Rename(av[k])).take(
            av.len() as int,
        ) =~= Seq::new(av.len(), |k: int| PlannedActionView::Rename(av[k])));
        out
    }
}


// ---------------------------------------------------------------------------
// What a staged plan does to the files
// ---------------------------------------------------------------------------
/// Moving the file at `from` to `to` in a file system that maps paths to
/// contents (nothing happens when there is no file at `from`).
pub open spec fn apply_move(fs: Map<Seq<char>, int>, from: Seq<char>, to: Seq<char>) -> Map<
    Seq<char>,
    int,
> {
    if fs.dom().contains(from) {
        fs.remove(from).insert(to, fs[from])
    } else {
        fs
    }
}

/// The file system after the moves and renames of `plan`, in order.
pub open spec fn apply_planned(fs: Map<Seq<char>, int>, plan: Seq<PlannedActionView>) -> Map<
    Seq<char>,
    int,
>
    decreases plan.len(),
{
    if plan.len() == 0 {
        fs
    } else {
        let before = apply_planned(fs, plan.drop_last());
        match plan.last() {
            PlannedActionView::Action(ActionView::MoveFile { source, target }) => apply_move(
                before,
                source,
                target,
            ),
            PlannedActionView::Rename(r) => apply_move(before, r.source, r.target),
            _ => before,
        }
    }
}

/// The conditions a staged plan is made under: the sources exist and are
/// distinct, the targets are distinct, and the temporary paths are
/// distinct, free on disk, and none of them is a source or a target.
pub open spec fn staging_preconditions(
    fs: Map<Seq<char>, int>,
    av: Seq<RenameActionView>,
    temps: Seq<Seq<char>>,
) -> bool {
    &&& temps.len() == av.len()
    &&& forall|i: int| 0 <= i < av.len() ==> fs.dom().contains(#[trigger] av[i].source)
    &&& forall|i: int, j: int|
        0 <= i < av.len() && 0 <= j < av.len() && i != j ==> #[trigger] av[i].source
            != #[trigger] av[j].source
    &&& forall|i: int, j: int|
        0 <= i < av.len() && 0 <= j < av.len() && i != j ==> #[trigger] av[i].target
            != #[trigger] av[j].target
    &&& forall|i: int, j: int|
        0 <= i < temps.len() && 0 <= j < temps.len() && i != j ==> #[trigger] temps[i]
            != #[trigger] temps[j]
    &&& forall|i: int| 0 <= i < temps.len() ==> !fs.dom().contains(#[trigger] temps[i])
    &&& forall|i: int, j: int|
        0 <= i < temps.len() && 0 <= j < av.len() ==> #[trigger] temps[i] != #[trigger] av[j].source
            && temps[i] != av[j].target
}

proof fn lemma_staging_first_half(
    fs: Map<Seq<char>, int>,
    av: Seq<RenameActionView>,
    temps: Seq<Seq<char>>,
    k: int,
)
    requires
        staging_preconditions(fs, av, temps),
        0 <= k <= av.len(),
    ensures
        ({
            let g = apply_planned(fs, staged_plan(av, temps).take(k));
            &&& forall|j: int|
                0 <= j < k ==> g.dom().contains(#[trigger] temps[j]) && g[temps[j]]
                    == fs[av[j].source]
            &&& forall|j: int|
                k <= j < av.len() ==> g.dom().contains(#[trigger] av[j].source) && g[av[j].source]
                    == fs[av[j].source]
            &&& forall|j: int| k <= j < av.len() ==> !g.dom().contains(#[trigger] temps[j])
        }),
    decreases k,
{
    let plan = staged_plan(av, temps);
    if k == 0 {
        assert(plan.take(0) =~= Seq::<PlannedActionView>::empty());
    } else {
        lemma_staging_first_half(fs, av, temps, k - 1);
        assert(plan.take(k).drop_last() =~= plan.take(k - 1));
        let g0 = apply_planned(fs, plan.take(k - 1));
        let g = apply_planned(fs, plan.take(k));
        let src = av[k - 1].source;
        let tmp = temps[k - 1];
        assert(plan.take(k).last() == plan[k - 1]);
        assert(g == apply_move(g0, src, tmp));
        assert forall|j: int| 0 <= j < k implies g.dom().contains(#[trigger] temps[j]) && g[temps[j]]
            == fs[av[j].source] by {
            if j < k - 1 {
                assert(temps[j] != src);
                assert(temps[j] != tmp);
            }
        }
        assert forall|j: int| k <= j < av.len() implies g.dom().contains(#[trigger] av[j].source)
            && g[av[j].source] == fs[av[j].source] by {
            assert(av[j].source != src);
            assert(av[j].source != tmp);
        }
        assert forall|j: int| k <= j < av.len() implies !g.dom().contains(#[trigger] temps[j]) by {
            assert(temps[j] != tmp);
        }
    }
}

proof fn lemma_staging_second_half(
    fs: Map<Seq<char>, int>,
    av: Seq<RenameActionView>,
    temps: Seq<Seq<char>>,
    m: int,
)
    requires
        staging_preconditions(fs, av, temps),
        0 <= m <= av.len(),
    ensures
        ({
            let g = apply_planned(fs, staged_plan(av, temps).take(av.len() + m));
            &&& forall|j: int|
                0 <= j < m ==> g.dom().contains(#[trigger] av[j].target) && g[av[j].target]
                    == fs[av[j].source]
            &&& forall|j: int|
                m <= j < av.len() ==> g.dom().contains(#[trigger] temps[j]) && g[temps[j]]
                    == fs[av[j].source]
        }),
    decreases m,
{
    let n = av.len() as int;
    let plan = staged_plan(av, temps);
    if m == 0 {
        lemma_staging_first_half(fs, av, temps, n);
    } else {
        lemma_staging_second_half(fs, av, temps, m - 1);
        assert(plan.take(n + m).drop_last() =~= plan.take(n + m - 1));
        let g0 = apply_planned(fs, plan.take(n + m - 1));
        let g = apply_planned(fs, plan.take(n + m));
        let tmp = temps[m - 1];
        let tgt = av[m - 1].target;
        assert(plan.take(n + m).last() == plan[n + m - 1]);
        assert(g == apply_move(g0, tmp, tgt));
        assert forall|j: int| 0 <= j < m implies g.dom().contains(#[trigger] av[j].target)
            && g[av[j].target] == fs[av[j].source] by {
            if j < m - 1 {
                assert(av[j].target != tmp);
                assert(av[j].target != tgt);
            }
        }
        assert forall|j: int| m <= j < n implies g.dom().contains(#[trigger] temps[j]) && g[temps[j]]
            == fs[av[j].source] by {
            assert(temps[j] != tmp);
            assert(temps[j] != tgt);
        }
    }
}

/// Staging makes cyclic renames safe: when the sources exist and are
/// distinct, the targets are distinct, and the temporary paths are
/// distinct, free, and clash with no source or target, running the staged
/// plan leaves at every target the contents of its source.
pub proof fn lemma_staged_plan_moves_each_source(
    fs: Map<Seq<char>, int>,
    av: Seq<RenameActionView>,
    temps: Seq<Seq<char>>,
)
    requires
        staging_preconditions(fs, av, temps),
    ensures
        forall|i: int|
            0 <= i < av.len() ==> apply_planned(fs, staged_plan(av, temps)).dom().contains(
                #[trigger] av[i].target,
            ) && apply_planned(fs, staged_plan(av, temps))[av[i].target] == fs[av[i].source],
{
    let n = av.len() as int;
    lemma_staging_second_half(fs, av, temps, n);
    assert(staged_plan(av, temps).take(n + n) =~= staged_plan(av, temps));
}

/// Temporary paths reserved by a planner clash with no source or target:
/// a path whose case-insensitive key is not among the reserved keys differs
/// from every source and target.
pub proof fn lemma_unreserved_path_is_free(av: Seq<RenameActionView>, candidate: Seq<char>)
    requires
        !reserved_keys(av).contains(unicode_lowercase(candidate)),
    ensures
        forall|j: int| 0 <= j < av.len() ==> candidate != (#[trigger] av[j]).source,
        forall|j: int| 0 <= j < av.len() ==> candidate != (#[trigger] av[j]).target,
{
    assert forall|j: int| 0 <= j < av.len() implies candidate != (#[trigger] av[j]).source
        && candidate != av[j].target by {
        if candidate == av[j].source || candidate == av[j].target {
            let k = unicode_lowercase(candidate);
            assert(k == unicode_lowercase(av[j].source) || k == unicode_lowercase(av[j].target));
            assert(reserved_keys(av).contains(k));
        }
    }
}

/// The search for the temporary paths of a staged rename, one per rename and
/// in order: for each rename, candidates are tried attempt by attempt until
/// one is neither on disk nor reserved (ignoring case); it is then taken
/// and reserved.
pub struct TemporaryPathSearch {
    planner: StagedRenamePlanner,
    process_id: u32,
    attempt: usize,
    paths: Vec<String>,
    initial: Ghost<Set<Seq<char>>>,
}

/// Mathematical view of a [`TemporaryPathSearch`].
pub struct TemporaryPathSearchView {
    /// The case-insensitive keys reserved so far.
    pub reserved: Set<Seq<char>>,
    /// The keys reserved before the search began: every source and target.
    pub initial: Set<Seq<char>>,
    pub process_id: u32,
    /// The attempt for the rename whose path is sought next.
    pub attempt: nat,
    /// The temporary paths taken so far, one per rename.
    pub paths: Seq<Seq<char>>,
}

impl View for TemporaryPathSearch {
    type V = TemporaryPathSearchView;

    closed spec fn view(&self) -> TemporaryPathSearchView {
        TemporaryPathSearchView {
            reserved: self.planner@,
            initial: self.initial@,
            process_id: self.process_id,
            attempt: self.attempt as nat,
            paths: self.paths@.map_values(|s: String| s@),
        }
    }
}

/// What a search keeps: the paths taken are reserved, were not reserved
/// before the search, and differ pairwise ignoring case; the keys reserved
/// before the search stay reserved.
pub open spec fn search_invariant(v: TemporaryPathSearchView) -> bool {
    &&& v.initial.subset_of(v.reserved)
    &&& forall|i: int|
        0 <= i < v.paths.len() ==> v.reserved.contains(unicode_lowercase(#[trigger] v.paths[i]))
            && !v.initial.contains(unicode_lowercase(v.paths[i]))
    &&& forall|i: int, j: int|
        0 <= i < j < v.paths.len() ==> unicode_lowercase(#[trigger] v.paths[i]) != unicode_lowercase(
            #[trigger] v.paths[j],
        )
}

impl TemporaryPathSearch {
    /// A search for the renames `rename_actions` of process `process_id`,
    /// with every source and target reserved.
    pub fn new(rename_actions: &[RenameAction], process_id: u32) -> (r: Self)
        ensures
            r@.reserved == reserved_keys(action_views(rename_actions@)),
            r@.initial == reserved_keys(action_views(rename_actions@)),
            r@.process_id == process_id,
            r@.attempt == 0,
            r@.paths == Seq::<Seq<char>>::empty(),
            search_invariant(r@),
    {
        let planner = StagedRenamePlanner::new(rename_actions);
        let r = TemporaryPathSearch {
            planner,
            process_id,
            attempt: 0,
            paths: Vec::new(),
            initial: Ghost(reserved_keys(action_views(rename_actions@))),
        };
        assert(r@.paths =~= Seq::<Seq<char>>::empty());
        r
    }

    /// The attempt for the rename whose path is sought next.
    pub fn attempt(&self) -> (r: usize)
        ensures
            r == self@.attempt,
    {
        self.attempt
    }

    /// The next candidate for the rename whose source is `source`: the one
    /// for its position in the plan (the number of paths taken so far) and
    /// the current attempt.
    pub fn candidate(&self, source: &str) -> (r: String)
        ensures
            r@ == utf8_join(
                match crate::paths::utf8_parent(source@) {
                    Some(p) => p,
                    None => seq![],
                },
                temporary_name(self@.process_id as nat, self@.paths.len(), self@.attempt),
            ),
    {
        StagedRenamePlanner::temporary_candidate_for(
            source,
            self.process_id,
            self.paths.len(),
            self.attempt,
        )
    }

    /// Offers `candidate`, of which `exists_on_disk` tells whether a file is
    /// there. It is taken, reserved, and the search goes on with the next
    /// rename from attempt zero, exactly when no file is there and its key
    /// is not reserved; else the next attempt follows.
    pub fn offer(&mut self, candidate: String, exists_on_disk: bool) -> (r: bool)
        requires
            search_invariant(old(self)@),
            old(self)@.attempt < usize::MAX,
        ensures
            r == (!exists_on_disk && !old(self)@.reserved.contains(unicode_lowercase(candidate@))),
            r ==> final(self)@ == (TemporaryPathSearchView {
                reserved: old(self)@.reserved.insert(unicode_lowercase(candidate@)),
                attempt: 0,
                paths: old(self)@.paths.push(candidate@),
                ..old(self)@
            }),
            !r ==> final(self)@ == (TemporaryPathSearchView {
                attempt: old(self)@.attempt + 1,
                ..old(self)@
            }),
            search_invariant(final(self)@),
    {
        let ghost old_view = self@;
        let taken = self.planner.try_reserve(candidate.as_str(), exists_on_disk);
        if taken {
            let ghost cv = candidate@;
            self.paths.push(candidate);
            self.attempt = 0;
            assert(self@.paths =~= old_view.paths.push(cv));
            assert forall|i: int| 0 <= i < self@.paths.len() implies self@.reserved.contains(
                unicode_lowercase(#[trigger] self@.paths[i]),
            ) && !self@.initial.contains(unicode_lowercase(self@.paths[i])) by {
                if i < old_view.paths.len() {
                    assert(self@.paths[i] == old_view.paths[i]);
                }
            }
            assert forall|i: int, j: int|
                0 <= i < j < self@.paths.len() implies unicode_lowercase(
                #[trigger] self@.paths[i],
            ) != unicode_lowercase(#[trigger] self@.paths[j]) by {
                assert(self@.paths[i] == old_view.paths[i]);
                if j < old_view.paths.len() {
                    assert(self@.paths[j] == old_view.paths[j]);
                }
            }
        } else {
            self.attempt = self.attempt + 1;
            if !exists_on_disk {
                assert(self@.reserved =~= old_view.reserved);
            }
        }
        taken
    }

    /// The temporary paths taken, one per rename in order.
    pub fn into_paths(self) -> (r: Vec<String>)
        ensures
            r@.map_values(|s: String| s@) == self@.paths,
    {
        self.paths
    }
}

/// The temporary paths that a search takes clash with nothing: they differ
/// from every source and target of the plan, and from one another.
pub proof fn lemma_search_paths_are_free(av: Seq<RenameActionView>, v: TemporaryPathSearchView)
    requires
        search_invariant(v),
        v.initial == reserved_keys(av),
    ensures
        forall|i: int, j: int|
            0 <= i < v.paths.len() && 0 <= j < av.len() ==> #[trigger] v.paths[i] != (
            #[trigger] av[j]).source && v.paths[i] != av[j].target,
        forall|i: int, j: int|
            0 <= i < j < v.paths.len() ==> #[trigger] v.paths[i] != #[trigger] v.paths[j],
{
    assert forall|i: int, j: int|
        0 <= i < v.paths.len() && 0 <= j < av.len() implies #[trigger] v.paths[i] != (
        #[trigger] av[j]).source && v.paths[i] != av[j].target by {
        assert(!reserved_keys(av).contains(unicode_lowercase(v.paths[i])));
        lemma_unreserved_path_is_free(av, v.paths[i]);
    }
    assert forall|i: int, j: int| 0 <= i < j < v.paths.len() implies #[trigger] v.paths[i]
        != #[trigger] v.paths[j] by {
        assert(unicode_lowercase(v.paths[i]) != unicode_lowercase(v.paths[j]));
    }
}

// ---------------------------------------------------------------------------
// Folders that targets need
// ---------------------------------------------------------------------------
/// `acc` with the paths of `xs` appended in order, each unless it is
/// already there.
pub open spec fn append_new(acc: Seq<Seq<char>>, xs: Seq<Seq<char>>) -> Seq<Seq<char>>
    decreases xs.len(),
{
    if xs.len() == 0 {
        acc
    } else {
        let a = append_new(acc, xs.drop_last());
        if a.contains(xs.last()) {
            a
        } else {
            a.push(xs.last())
        }
    }
}

/// The folders to make, from the missing folders above each target
/// (`chains[i]`, nearest first): each chain outermost first, so that a
/// folder comes after the folder that holds it, and each folder once.
pub open spec fn folders_to_make_spec(chains: Seq<Seq<Seq<char>>>) -> Seq<Seq<char>>
    decreases chains.len(),
{
    if chains.len() == 0 {
        seq![]
    } else {
        append_new(folders_to_make_spec(chains.drop_last()), chains.last().reverse())
    }
}

fn append_new_exec(acc: &mut Vec<String>, xs: &Vec<String>)
    ensures
        final(acc)@.map_values(|d: String| d@) == append_new(
            old(acc)@.map_values(|d: String| d@),
            xs@.map_values(|d: String| d@),
        ),
{
    let ghost start = acc@.map_values(|d: String| d@);
    let ghost xv = xs@.map_values(|d: String| d@);
    let mut i: usize = 0;
    while i < xs.len()
        invariant
            i <= xs@.len(),
            xv == xs@.map_values(|d: String| d@),
            acc@.map_values(|d: String| d@) == append_new(start, xv.take(i as int)),
        decreases xs.len() - i,
    {
        let ghost a = acc@.map_values(|d: String| d@);
        assert(xv.take(i + 1).drop_last() =~= xv.take(i as int));
        assert(xv.take(i + 1).last() == xs@[i as int]@);
        let mut found = false;
        let mut k: usize = 0;
        while k < acc.len()
            invariant
                k <= acc@.len(),
                a == acc@.map_values(|d: String| d@),
                i < xs@.len(),
                found == (exists|m: int| 0 <= m < k && a[m] == xs@[i as int]@),
            decreases acc.len() - k,
        {
            if acc[k] == xs[i] {
                assert(a[k as int] == xs@[i as int]@);
                found = true;
            }
            k = k + 1;
        }
        proof {
            if found {
                let m = choose|m: int| 0 <= m < k && a[m] == xs@[i as int]@;
                assert(a.contains(xs@[i as int]@));
            } else {
                assert(!a.contains(xs@[i as int]@));
            }
        }
        if !found {
            acc.push(xs[i].clone());
            assert(acc@.map_values(|d: String| d@) =~= a.push(xs@[i as int]@));
        }
        i = i + 1;
    }
    assert(xv.take(xs@.len() as int) =~= xv);
}

/// The folders that targets need and that do not exist yet, in the order in
/// which they are made. `chains[i]` holds the missing folders above the
/// `i`-th target, nearest first.
pub fn folders_to_make(chains: &Vec<Vec<String>>) -> (r: Vec<String>)
    ensures
        r@.map_values(|d: String| d@) == folders_to_make_spec(
            chains@.map_values(|c: Vec<String>| c@.map_values(|d: String| d@)),
        ),
{
    let ghost cv = chains@.map_values(|c: Vec<String>| c@.map_values(|d: String| d@));
    let mut out: Vec<String> = Vec::new();
    let mut i: usize = 0;
    while i < chains.len()
        invariant
            i <= chains@.len(),
            cv == chains@.map_values(|c: Vec<String>| c@.map_values(|d: String| d@)),
            out@.map_values(|d: String| d@) == folders_to_make_spec(cv.take(i as int)),
        decreases chains.len() - i,
    {
        let chain = &chains[i];
        let mut reversed: Vec<String> = Vec::new();
        let mut j: usize = chain.len();
        while j > 0
            invariant
                j <= chain@.len(),
                reversed@.map_values(|d: String| d@) == chain@.map_values(|d: String| d@).subrange(
                    j as int,
                    chain@.len() as int,
                ).reverse(),
            decreases j,
        {
            j = j - 1;
            let ghost before = reversed@.map_values(|d: String| d@);
            reversed.push(chain[j].clone());
            let ghost cs = chain@.map_values(|d: String| d@);
            let ghost now = reversed@.map_values(|d: String| d@);
            let ghost want = cs.subrange(j as int, chain@.len() as int).reverse();
            let ghost sub = cs.subrange(j as int, chain@.len() as int);
            let ghost prev = cs.subrange(j + 1, chain@.len() as int);
            proof {
                assert(sub.len() > 0);
                assert(want == Seq::new(sub.len(), |m: int| sub[sub.len() - 1 - m]));
                if prev.len() > 0 {
                    assert(before == Seq::new(prev.len(), |m: int| prev[prev.len() - 1 - m]));
                }
            }
            assert(before.len() == prev.len());
            assert(now.len() == want.len());
            assert forall|m: int| 0 <= m < now.len() implies now[m] == want[m] by {
                if m < before.len() {
                    assert(now[m] == before[m]);
                    assert(before[m] == prev[prev.len() - 1 - m]);
                } else {
                    assert(now[m] == chain@[j as int]@);
                }
            }
            assert(now =~= want);
        }
        assert(chain@.map_values(|d: String| d@).subrange(0, chain@.len() as int) =~= chain@.map_values(
            |d: String| d@,
        ));
        assert(cv.take(i + 1).drop_last() =~= cv.take(i as int));
        assert(cv.take(i + 1).last() == chain@.map_values(|d: String| d@));
        append_new_exec(&mut out, &reversed);
        i = i + 1;
    }
    assert(cv.take(chains@.len() as int) =~= cv);
    out
}

proof fn lemma_append_new(acc: Seq<Seq<char>>, xs: Seq<Seq<char>>)
    requires
        acc.no_duplicates(),
    ensures
        append_new(acc, xs).no_duplicates(),
        forall|d: Seq<char>|
            append_new(acc, xs).contains(d) <==> acc.contains(d) || xs.contains(d),
    decreases xs.len(),
{
    if xs.len() > 0 {
        let init = xs.drop_last();
        lemma_append_new(acc, init);
        let a = append_new(acc, init);
        assert forall|d: Seq<char>| xs.contains(d) <==> init.contains(d) || d == xs.last() by {
            if xs.contains(d) && d != xs.last() {
                let m = choose|m: int| 0 <= m < xs.len() && xs[m] == d;
                assert(init[m] == d);
            }
            if init.contains(d) {
                let m = choose|m: int| 0 <= m < init.len() && init[m] == d;
                assert(xs[m] == d);
            }
            if d == xs.last() {
                assert(xs[xs.len() - 1] == d);
            }
        }
        if !a.contains(xs.last()) {
            let r = a.push(xs.last());
            assert forall|i: int, j: int| 0 <= i < r.len() && 0 <= j < r.len() && i != j implies r[i]
                != r[j] by {
                if i < a.len() && j < a.len() {
                    assert(r[i] == a[i] && r[j] == a[j]);
                } else if i < a.len() {
                    assert(r[i] == a[i]);
                } else if j < a.len() {
                    assert(r[j] == a[j]);
                }
            }
            assert forall|d: Seq<char>| r.contains(d) <==> a.contains(d) || d == xs.last() by {
                if r.contains(d) && d != xs.last() {
                    let m = choose|m: int| 0 <= m < r.len() && r[m] == d;
                    assert(a[m] == d);
                }
                if a.contains(d) {
                    let m = choose|m: int| 0 <= m < a.len() && a[m] == d;
                    assert(r[m] == d);
                }
                if d == xs.last() {
                    assert(r[r.len() - 1] == d);
                }
            }
        }
    }
}

/// Every folder that some target needs is made, and none twice.
pub proof fn lemma_folders_made_once(chains: Seq<Seq<Seq<char>>>)
    ensures
        folders_to_make_spec(chains).no_duplicates(),
        forall|d: Seq<char>|
            folders_to_make_spec(chains).contains(d) <==> exists|i: int|
                0 <= i < chains.len() && #[trigger] chains[i].contains(d),
    decreases chains.len(),
{
    if chains.len() > 0 {
        let init = chains.drop_last();
        lemma_folders_made_once(init);
        let c = chains.last();
        lemma_append_new(folders_to_make_spec(init), c.reverse());
        assert forall|d: Seq<char>| c.reverse().contains(d) <==> c.contains(d) by {
            if c.reverse().contains(d) {
                let m = choose|m: int| 0 <= m < c.reverse().len() && c.reverse()[m] == d;
                assert(c[c.len() - 1 - m] == d);
            }
            if c.contains(d) {
                let m = choose|m: int| 0 <= m < c.len() && c[m] == d;
                assert(c.reverse()[c.len() - 1 - m] == d);
            }
        }
        assert forall|d: Seq<char>| folders_to_make_spec(chains).contains(d) <==> exists|i: int|
            0 <= i < chains.len() && #[trigger] chains[i].contains(d) by {
            if exists|i: int| 0 <= i < chains.len() && #[trigger] chains[i].contains(d) {
                let i = choose|i: int| 0 <= i < chains.len() && #[trigger] chains[i].contains(d);
                if i < init.len() {
                    assert(init[i] == chains[i]);
                }
            }
            if exists|i: int| 0 <= i < init.len() && #[trigger] init[i].contains(d) {
                let i = choose|i: int| 0 <= i < init.len() && #[trigger] init[i].contains(d);
                assert(chains[i] == init[i]);
            }
            if c.contains(d) {
                assert(chains[chains.len() - 1].contains(d));
            }
        }
    }
}

} // verus!
