//! Validation of a rename plan before any file is moved.
//!
//! A plan is rejected for: doubled path separators, targets that collide,
//! targets that differ only by case, targets that already exist (unless
//! another source of the plan frees them), Windows reserved device names,
//! path components with leading or trailing spaces or trailing periods, and
//! targets longer than [`MAX_PATH_LENGTH`] bytes.

use crate::action::{RenameAction, RenameActionView};
use crate::paths::{components, main_separator, utf8_components, ComponentView, PathComponent};
use crate::text::{chars_of, contains_double, contains_spec, to_lowercase, unicode_lowercase};
use crate::MAX_PATH_LENGTH;
use vstd::prelude::*;
use vstd::utf8::encode_utf8;

verus! {

/// A character that interpolated tag values must not contain, with what
/// it is replaced by (`None`: removed).
#[derive(Debug, Clone, Copy)]
pub struct ForbiddenCharacter {
    char: char,
    replacement: Option<char>,
}

impl ForbiddenCharacter {
    pub closed spec fn char_spec(self) -> char {
        self.char
    }

    pub closed spec fn replacement_spec(self) -> Option<char> {
        self.replacement
    }

    pub fn char(&self) -> (r: char)
        ensures
            r == self.char_spec(),
    {
        self.char
    }

    pub fn replacement(&self) -> (r: Option<char>)
        ensures
            r == self.replacement_spec(),
    {
        self.replacement
    }
}

/// The forbidden characters and their replacements, in the order in which
/// they are applied.
pub open spec fn forbidden_table() -> Seq<(char, Option<char>)> {
    seq![
        ('<', None),
        ('"', None),
        ('>', None),
        (':', None),
        ('|', None),
        ('?', None),
        ('*', None),
        ('~', Some('-')),
        ('/', Some('-')),
        ('\\', Some('-')),
    ]
}

/// The table of characters that interpolated tag values must not contain.
pub fn forbidden_characters() -> (r: Vec<ForbiddenCharacter>)
    ensures
        r@.len() == forbidden_table().len(),
        forall|i: int|
            0 <= i < r@.len() ==> (#[trigger] r@[i]).char_spec() == forbidden_table()[i].0
                && r@[i].replacement_spec() == forbidden_table()[i].1,
{
    let r = vec![
        ForbiddenCharacter { char: '<', replacement: None },
        ForbiddenCharacter { char: '"', replacement: None },
        ForbiddenCharacter { char: '>', replacement: None },
        ForbiddenCharacter { char: ':', replacement: None },
        ForbiddenCharacter { char: '|', replacement: None },
        ForbiddenCharacter { char: '?', replacement: None },
        ForbiddenCharacter { char: '*', replacement: None },
        ForbiddenCharacter { char: '~', replacement: Some('-') },
        ForbiddenCharacter { char: '/', replacement: Some('-') },
        ForbiddenCharacter { char: '\\', replacement: Some('-') },
    ];
    r
}

/// A character that a path component must not start and/or end with.
#[derive(Debug, Clone, Copy)]
pub struct ForbiddenLeadingOrTrailingChar {
    char: char,
    leading: bool,
    trailing: bool,
}

impl ForbiddenLeadingOrTrailingChar {
    pub closed spec fn char_spec(self) -> char {
        self.char
    }

    pub closed spec fn leading_spec(self) -> bool {
        self.leading
    }

    pub closed spec fn trailing_spec(self) -> bool {
        self.trailing
    }

    pub fn char(&self) -> (r: char)
        ensures
            r == self.char_spec(),
    {
        self.char
    }

    pub fn leading(&self) -> (r: bool)
        ensures
            r == self.leading_spec(),
    {
        self.leading
    }

    pub fn trailing(&self) -> (r: bool)
        ensures
            r == self.trailing_spec(),
    {
        self.trailing
    }
}

/// Characters forbidden at the start and/or end of a path component:
/// spaces at either end, periods at the end.
pub open spec fn leading_trailing_table() -> Seq<(char, bool, bool)> {
    seq![(' ', true, true), ('.', false, true)]
}

pub fn forbidden_leading_or_trailing_characters() -> (r: Vec<ForbiddenLeadingOrTrailingChar>)
    ensures
        r@.len() == leading_trailing_table().len(),
        forall|i: int|
            0 <= i < r@.len() ==> (#[trigger] r@[i]).char_spec() == leading_trailing_table()[i].0
                && r@[i].leading_spec() == leading_trailing_table()[i].1 && r@[i].trailing_spec()
                == leading_trailing_table()[i].2,
{
    vec![
        ForbiddenLeadingOrTrailingChar { char: ' ', leading: true, trailing: true },
        ForbiddenLeadingOrTrailingChar { char: '.', leading: false, trailing: true },
    ]
}

/// Why a rename plan is rejected.
#[derive(Debug)]
pub enum ValidationError {
    DoubleSeparators(RenameAction),
    Collision(Vec<RenameAction>),
    CaseInsensitiveCollision(Vec<RenameAction>),
    TargetExists(RenameAction),
    ReservedName { action: RenameAction, component: String },
    ForbiddenCharacterLeadingOrTrailingPathComponent {
        action: RenameAction,
        component: String,
        forbidden_leading_characters: Option<Vec<char>>,
        forbidden_trailing_characters: Option<Vec<char>>,
    },
    PathTooLong { action: RenameAction, max_length: usize, actual_length: usize },
}

/// Mathematical view of a [`ValidationError`].
pub enum ValidationErrorView {
    DoubleSeparators(RenameActionView),
    Collision(Seq<RenameActionView>),
    CaseInsensitiveCollision(Seq<RenameActionView>),
    TargetExists(RenameActionView),
    ReservedName { action: RenameActionView, component: Seq<char> },
    ForbiddenCharacterLeadingOrTrailingPathComponent {
        action: RenameActionView,
        component: Seq<char>,
        forbidden_leading_characters: Option<Seq<char>>,
        forbidden_trailing_characters: Option<Seq<char>>,
    },
    PathTooLong { action: RenameActionView, max_length: nat, actual_length: nat },
}

/// The views of a sequence of rename actions.
pub open spec fn action_views(s: Seq<RenameAction>) -> Seq<RenameActionView> {
    s.map_values(|a: RenameAction| a@)
}

pub open spec fn opt_chars_view(o: Option<Vec<char>>) -> Option<Seq<char>> {
    match o {
        Some(v) => Some(v@),
        None => None,
    }
}

impl View for ValidationError {
    type V = ValidationErrorView;

    open spec fn view(&self) -> ValidationErrorView {
        match self {
            ValidationError::DoubleSeparators(a) => ValidationErrorView::DoubleSeparators(a@),
            ValidationError::Collision(v) => ValidationErrorView::Collision(action_views(v@)),
            ValidationError::CaseInsensitiveCollision(v) => {
                ValidationErrorView::CaseInsensitiveCollision(action_views(v@))
            },
            ValidationError::TargetExists(a) => ValidationErrorView::TargetExists(a@),
            ValidationError::ReservedName { action, component } => {
                ValidationErrorView::ReservedName { action: action@, component: component@ }
            },
            ValidationError::ForbiddenCharacterLeadingOrTrailingPathComponent {
                action,
                component,
                forbidden_leading_characters,
                forbidden_trailing_characters,
            } => ValidationErrorView::ForbiddenCharacterLeadingOrTrailingPathComponent {
                action: action@,
                component: component@,
                forbidden_leading_characters: opt_chars_view(*forbidden_leading_characters),
                forbidden_trailing_characters: opt_chars_view(*forbidden_trailing_characters),
            },
            ValidationError::PathTooLong { action, max_length, actual_length } => {
                ValidationErrorView::PathTooLong {
                    action: action@,
                    max_length: *max_length as nat,
                    actual_length: *actual_length as nat,
                }
            },
        }
    }
}

/// The views of a sequence of errors.
pub open spec fn error_views(s: Seq<ValidationError>) -> Seq<ValidationErrorView> {
    s.map_values(|e: ValidationError| e@)
}

proof fn lemma_error_views_push(s: Seq<ValidationError>, e: ValidationError)
    ensures
        error_views(s.push(e)) == error_views(s).push(e@),
{
    assert(error_views(s.push(e)) =~= error_views(s).push(e@));
}

proof fn lemma_action_views_push(s: Seq<RenameAction>, e: RenameAction)
    ensures
        action_views(s.push(e)) == action_views(s).push(e@),
{
    assert(action_views(s.push(e)) =~= action_views(s).push(e@));
}

proof fn lemma_action_views_take(s: Seq<RenameAction>, i: int)
    requires
        0 <= i < s.len(),
    ensures
        action_views(s.take(i + 1)).drop_last() == action_views(s.take(i)),
        action_views(s.take(i + 1)).last() == s[i]@,
        action_views(s).len() == s.len(),
        action_views(s)[i] == s[i]@,
{
    assert(action_views(s.take(i + 1)).drop_last() =~= action_views(s.take(i)));
}

// ---------------------------------------------------------------------------
// Doubled separators
// ---------------------------------------------------------------------------
/// A `DoubleSeparators` error for each action (in order) whose target holds
/// two consecutive separators.
pub open spec fn double_separator_errors(av: Seq<RenameActionView>, sep: char) -> Seq<
    ValidationErrorView,
>
    decreases av.len(),
{
    if av.len() == 0 {
        seq![]
    } else {
        double_separator_errors(av.drop_last(), sep) + if contains_spec(
            av.last().target,
            seq![sep, sep],
        ) {
            seq![ValidationErrorView::DoubleSeparators(av.last())]
        } else {
            seq![]
        }
    }
}

/// Errors for targets that contain the separator `sep` twice in a row.
pub fn validate_double_separators(rename_actions: &[RenameAction], sep: char) -> (r: Vec<
    ValidationError,
>)
    ensures
        error_views(r@) == double_separator_errors(action_views(rename_actions@), sep),
{
    let mut r: Vec<ValidationError> = Vec::new();
    let mut i: usize = 0;
    while i < rename_actions.len()
        invariant
            i <= rename_actions@.len(),
            error_views(r@) == double_separator_errors(
                action_views(rename_actions@.take(i as int)),
                sep,
            ),
        decreases rename_actions.len() - i,
    {
        proof {
            lemma_action_views_take(rename_actions@, i as int);
        }
        let target = chars_of(rename_actions[i].target());
        if contains_double(&target, sep) {
            proof {
                lemma_error_views_push(r@, ValidationError::DoubleSeparators(rename_actions@[i as int]));
            }
            r.push(ValidationError::DoubleSeparators(rename_actions[i].clone()));
        }
        i = i + 1;
    }
    assert(rename_actions@.take(rename_actions@.len() as int) =~= rename_actions@);
    r
}


// ---------------------------------------------------------------------------
// Grouping actions by a key of their target
// ---------------------------------------------------------------------------
/// The actions of `av` (in order) whose key equals `k`.
pub open spec fn key_group<K>(av: Seq<RenameActionView>, key: spec_fn(RenameActionView) -> K, k: K) -> Seq<
    RenameActionView,
>
    decreases av.len(),
{
    if av.len() == 0 {
        seq![]
    } else {
        key_group(av.drop_last(), key, k) + if key(av.last()) == k {
            seq![av.last()]
        } else {
            seq![]
        }
    }
}

/// Whether an action before position `i` has the same key as `av[i]`.
pub open spec fn key_seen_before<K>(av: Seq<RenameActionView>, key: spec_fn(RenameActionView) -> K, i: int) -> bool {
    exists|j: int| 0 <= j < i && #[trigger] key(av[j]) == key(av[i])
}

/// For each action of the first `n` that is the first with its key, the
/// group of all actions with that key, when the group has more than one
/// member; in order of first occurrence.
pub open spec fn duplicate_groups_upto<K>(
    av: Seq<RenameActionView>,
    key: spec_fn(RenameActionView) -> K,
    n: int,
) -> Seq<Seq<RenameActionView>>
    decreases n,
{
    if n <= 0 {
        seq![]
    } else {
        duplicate_groups_upto(av, key, n - 1) + if !key_seen_before(av, key, n - 1) && key_group(
            av,
            key,
            key(av[n - 1]),
        ).len() > 1 {
            seq![key_group(av, key, key(av[n - 1]))]
        } else {
            seq![]
        }
    }
}

pub open spec fn duplicate_groups<K>(av: Seq<RenameActionView>, key: spec_fn(RenameActionView) -> K) -> Seq<
    Seq<RenameActionView>,
> {
    duplicate_groups_upto(av, key, av.len() as int)
}

/// The views of a sequence of action groups.
pub open spec fn group_views(s: Seq<Vec<RenameAction>>) -> Seq<Seq<RenameActionView>> {
    s.map_values(|g: Vec<RenameAction>| action_views(g@))
}

fn clone_group_member(group: &mut Vec<RenameAction>, rename_actions: &[RenameAction], j: usize)
    requires
        j < rename_actions@.len(),
    ensures
        action_views(final(group)@) == action_views(old(group)@).push(rename_actions@[j as int]@),
{
    let a = rename_actions[j].clone();
    proof {
        lemma_action_views_push(group@, a);
    }
    group.push(a);
}

/// The groups of actions whose keys agree, as `duplicate_groups` describes;
/// `same[i][j]` tells whether actions `i` and `j` have equal keys.
fn duplicate_groups_exec<K>(
    rename_actions: &[RenameAction],
    same: &Vec<Vec<bool>>,
    Ghost(key): Ghost<spec_fn(RenameActionView) -> K>,
) -> (r: Vec<Vec<RenameAction>>)
    requires
        same@.len() == rename_actions@.len(),
        forall|i: int|
            0 <= i < same@.len() ==> (#[trigger] same@[i])@.len() == rename_actions@.len(),
        forall|i: int, j: int|
            0 <= i < same@.len() && 0 <= j < same@.len() ==> (#[trigger] same@[i]@[j]) == (key(
                rename_actions@[i]@,
            ) == key(rename_actions@[j]@)),
    ensures
        group_views(r@) == duplicate_groups(action_views(rename_actions@), key),
{
    let ghost av = action_views(rename_actions@);
    let n = rename_actions.len();
    let mut r: Vec<Vec<RenameAction>> = Vec::new();
    let mut i: usize = 0;
    while i < n
        invariant
            n == rename_actions@.len(),
            av == action_views(rename_actions@),
            av.len() == n,
            i <= n,
            same@.len() == n,
            forall|a: int| 0 <= a < same@.len() ==> (#[trigger] same@[a])@.len() == n,
            forall|a: int, b: int|
                0 <= a < n && 0 <= b < n ==> (#[trigger] same@[a]@[b]) == (key(av[a]) == key(
                    av[b],
                )),
            group_views(r@) == duplicate_groups_upto(av, key, i as int),
        decreases n - i,
    {
        let mut seen = false;
        let mut j: usize = 0;
        while j < i
            invariant
                n == rename_actions@.len(),
                av == action_views(rename_actions@),
                av.len() == n,
                j <= i < n,
                same@.len() == n,
                forall|a: int| 0 <= a < same@.len() ==> (#[trigger] same@[a])@.len() == n,
                forall|a: int, b: int|
                    0 <= a < n && 0 <= b < n ==> (#[trigger] same@[a]@[b]) == (key(av[a]) == key(
                        av[b],
                    )),
                seen == (exists|k: int| 0 <= k < j && #[trigger] key(av[k]) == key(av[i as int])),
            decreases i - j,
        {
            if same[j][i] {
                assert(key(av[j as int]) == key(av[i as int]));
                seen = true;
            }
            j = j + 1;
        }
        assert(seen == key_seen_before(av, key, i as int));
        if !seen {
            let mut group: Vec<RenameAction> = Vec::new();
            let mut k: usize = 0;
            while k < n
                invariant
                    n == rename_actions@.len(),
                    av == action_views(rename_actions@),
                    av.len() == n,
                    i < n,
                    k <= n,
                    same@.len() == n,
                    forall|a: int| 0 <= a < same@.len() ==> (#[trigger] same@[a])@.len() == n,
                    forall|a: int, b: int|
                        0 <= a < n && 0 <= b < n ==> (#[trigger] same@[a]@[b]) == (key(av[a])
                            == key(av[b])),
                    action_views(group@) == key_group(av.take(k as int), key, key(av[i as int])),
                decreases n - k,
            {
                assert(av.take(k + 1).drop_last() =~= av.take(k as int));
                assert(av.take(k + 1).last() == av[k as int]);
                if same[k][i] {
                    clone_group_member(&mut group, rename_actions, k);
                }
                k = k + 1;
            }
            assert(av.take(n as int) =~= av);
            if group.len() > 1 {
                let ghost prev = r@;
                let ghost g = group@;
                r.push(group);
                assert(group_views(r@) =~= group_views(prev).push(action_views(g)));
            }
        }
        i = i + 1;
    }
    r
}


// ---------------------------------------------------------------------------
// Collisions
// ---------------------------------------------------------------------------
/// The key under which two targets collide: their path components.
pub open spec fn target_path_key() -> spec_fn(RenameActionView) -> Seq<ComponentView> {
    |a: RenameActionView| utf8_components(a.target)
}

/// The key under which two targets collide regardless of case: the
/// lowercase form of their text.
pub open spec fn target_case_key() -> spec_fn(RenameActionView) -> Seq<char> {
    |a: RenameActionView| unicode_lowercase(a.target)
}

/// A `Collision` error for each group of at least two actions whose targets
/// are the same path, in order of first occurrence.
pub open spec fn collision_errors(av: Seq<RenameActionView>) -> Seq<ValidationErrorView> {
    duplicate_groups(av, target_path_key()).map_values(
        |g: Seq<RenameActionView>| ValidationErrorView::Collision(g),
    )
}

/// Whether some member of `g` has a target text different from the first's.
pub open spec fn has_distinct_targets(g: Seq<RenameActionView>) -> bool {
    exists|k: int| 0 <= k < g.len() && #[trigger] g[k].target != g[0].target
}

/// `CaseInsensitiveCollision` errors for the groups that hold more than one
/// distinct target text.
pub open spec fn case_collision_errors_of(gs: Seq<Seq<RenameActionView>>) -> Seq<ValidationErrorView>
    decreases gs.len(),
{
    if gs.len() == 0 {
        seq![]
    } else {
        case_collision_errors_of(gs.drop_last()) + if has_distinct_targets(gs.last()) {
            seq![ValidationErrorView::CaseInsensitiveCollision(gs.last())]
        } else {
            seq![]
        }
    }
}

/// A `CaseInsensitiveCollision` error for each group of actions whose
/// targets are equal up to case but not all equal, in order of first occurrence.
pub open spec fn case_insensitive_collision_errors(av: Seq<RenameActionView>) -> Seq<ValidationErrorView> {
    case_collision_errors_of(duplicate_groups(av, target_case_key()))
}

pub(crate) fn component_eq(a: &PathComponent, b: &PathComponent) -> (r: bool)
    ensures
        r == (a@ == b@),
{
    match a {
        PathComponent::Prefix(x) => match b {
            PathComponent::Prefix(y) => *x == *y,
            _ => false,
        },
        PathComponent::RootDir => match b {
            PathComponent::RootDir => true,
            _ => false,
        },
        PathComponent::CurDir => match b {
            PathComponent::CurDir => true,
            _ => false,
        },
        PathComponent::ParentDir => match b {
            PathComponent::ParentDir => true,
            _ => false,
        },
        PathComponent::Normal(x) => match b {
            PathComponent::Normal(y) => *x == *y,
            _ => false,
        },
    }
}

/// Whether two component sequences are equal.
pub fn components_eq(a: &Vec<PathComponent>, b: &Vec<PathComponent>) -> (r: bool)
    ensures
        r == (crate::paths::component_views(a@) == crate::paths::component_views(b@)),
{
    if a.len() != b.len() {
        assert(crate::paths::component_views(a@).len() != crate::paths::component_views(b@).len());
        return false;
    }
    let mut i: usize = 0;
    while i < a.len()
        invariant
            a.len() == b.len(),
            i <= a.len(),
            forall|k: int| 0 <= k < i ==> a@[k]@ == b@[k]@,
        decreases a.len() - i,
    {
        if !component_eq(&a[i], &b[i]) {
            assert(crate::paths::component_views(a@)[i as int] != crate::paths::component_views(b@)[i as int]);
            return false;
        }
        i = i + 1;
    }
    assert(crate::paths::component_views(a@) =~= crate::paths::component_views(b@));
    true
}

/// The components of each target.
fn target_components(rename_actions: &[RenameAction]) -> (r: Vec<Vec<PathComponent>>)
    ensures
        r@.len() == rename_actions@.len(),
        forall|i: int|
            0 <= i < r@.len() ==> crate::paths::component_views((#[trigger] r@[i])@)
                == utf8_components(rename_actions@[i]@.target),
{
    let mut r: Vec<Vec<PathComponent>> = Vec::new();
    let mut i: usize = 0;
    while i < rename_actions.len()
        invariant
            i <= rename_actions@.len(),
            r@.len() == i,
            forall|k: int|
                0 <= k < i ==> crate::paths::component_views((#[trigger] r@[k])@)
                    == utf8_components(rename_actions@[k]@.target),
        decreases rename_actions.len() - i,
    {
        r.push(components(rename_actions[i].target()));
        i = i + 1;
    }
    r
}

/// The lowercase form of each target.
fn target_case_keys(rename_actions: &[RenameAction]) -> (r: Vec<String>)
    ensures
        r@.len() == rename_actions@.len(),
        forall|i: int|
            0 <= i < r@.len() ==> (#[trigger] r@[i])@ == unicode_lowercase(rename_actions@[i]@.target),
{
    let mut r: Vec<String> = Vec::new();
    let mut i: usize = 0;
    while i < rename_actions.len()
        invariant
            i <= rename_actions@.len(),
            r@.len() == i,
            forall|k: int|
                0 <= k < i ==> (#[trigger] r@[k])@ == unicode_lowercase(rename_actions@[k]@.target),
        decreases rename_actions.len() - i,
    {
        r.push(to_lowercase(rename_actions[i].target()));
        i = i + 1;
    }
    r
}

fn path_key_matrix(rename_actions: &[RenameAction]) -> (same: Vec<Vec<bool>>)
    ensures
        same@.len() == rename_actions@.len(),
        forall|i: int|
            0 <= i < same@.len() ==> (#[trigger] same@[i])@.len() == rename_actions@.len(),
        forall|i: int, j: int|
            0 <= i < same@.len() && 0 <= j < same@.len() ==> (#[trigger] same@[i]@[j]) == (
            target_path_key()(rename_actions@[i]@) == target_path_key()(rename_actions@[j]@)),
{
    let comps = target_components(rename_actions);
    let n = rename_actions.len();
    let mut same: Vec<Vec<bool>> = Vec::new();
    let mut i: usize = 0;
    while i < n
        invariant
            n == rename_actions@.len(),
            comps@.len() == n,
            forall|k: int|
                0 <= k < n ==> crate::paths::component_views((#[trigger] comps@[k])@)
                    == utf8_components(rename_actions@[k]@.target),
            i <= n,
            same@.len() == i,
            forall|a: int| 0 <= a < i ==> (#[trigger] same@[a])@.len() == n,
            forall|a: int, b: int|
                0 <= a < i && 0 <= b < n ==> (#[trigger] same@[a]@[b]) == (target_path_key()(
                    rename_actions@[a]@,
                ) == target_path_key()(rename_actions@[b]@)),
        decreases n - i,
    {
        let mut row: Vec<bool> = Vec::new();
        let mut j: usize = 0;
        while j < n
            invariant
                n == rename_actions@.len(),
                comps@.len() == n,
                forall|k: int|
                    0 <= k < n ==> crate::paths::component_views((#[trigger] comps@[k])@)
                        == utf8_components(rename_actions@[k]@.target),
                i < n,
                j <= n,
                row@.len() == j,
                forall|b: int|
                    0 <= b < j ==> (#[trigger] row@[b]) == (target_path_key()(rename_actions@[i as int]@)
                        == target_path_key()(rename_actions@[b]@)),
            decreases n - j,
        {
            row.push(components_eq(&comps[i], &comps[j]));
            j = j + 1;
        }
        same.push(row);
        i = i + 1;
    }
    same
}

fn case_key_matrix(rename_actions: &[RenameAction]) -> (same: Vec<Vec<bool>>)
    ensures
        same@.len() == rename_actions@.len(),
        forall|i: int|
            0 <= i < same@.len() ==> (#[trigger] same@[i])@.len() == rename_actions@.len(),
        forall|i: int, j: int|
            0 <= i < same@.len() && 0 <= j < same@.len() ==> (#[trigger] same@[i]@[j]) == (
            target_case_key()(rename_actions@[i]@) == target_case_key()(rename_actions@[j]@)),
{
    let keys = target_case_keys(rename_actions);
    let n = rename_actions.len();
    let mut same: Vec<Vec<bool>> = Vec::new();
    let mut i: usize = 0;
    while i < n
        invariant
            n == rename_actions@.len(),
            keys@.len() == n,
            forall|k: int|
                0 <= k < n ==> (#[trigger] keys@[k])@ == unicode_lowercase(rename_actions@[k]@.target),
            i <= n,
            same@.len() == i,
            forall|a: int| 0 <= a < i ==> (#[trigger] same@[a])@.len() == n,
            forall|a: int, b: int|
                0 <= a < i && 0 <= b < n ==> (#[trigger] same@[a]@[b]) == (target_case_key()(
                    rename_actions@[a]@,
                ) == target_case_key()(rename_actions@[b]@)),
        decreases n - i,
    {
        let mut row: Vec<bool> = Vec::new();
        let mut j: usize = 0;
        while j < n
            invariant
                n == rename_actions@.len(),
                keys@.len() == n,
                forall|k: int|
                    0 <= k < n ==> (#[trigger] keys@[k])@ == unicode_lowercase(rename_actions@[k]@.target),
                i < n,
                j <= n,
                row@.len() == j,
                forall|b: int|
                    0 <= b < j ==> (#[trigger] row@[b]) == (target_case_key()(rename_actions@[i as int]@)
                        == target_case_key()(rename_actions@[b]@)),
            decreases n - j,
        {
            row.push(keys[i] == keys[j]);
            j = j + 1;
        }
        same.push(row);
        i = i + 1;
    }
    same
}

/// Errors for groups of actions whose targets are the same path.
pub fn validate_collisions(rename_actions: &[RenameAction]) -> (r: Vec<ValidationError>)
    ensures
        error_views(r@) == collision_errors(action_views(rename_actions@)),
{
    let same = path_key_matrix(rename_actions);
    let mut groups = duplicate_groups_exec::<Seq<ComponentView>>(rename_actions, &same, Ghost(target_path_key()));
    let ghost gs = group_views(groups@);
    let mut r: Vec<ValidationError> = Vec::new();
    let mut k: usize = 0;
    let n = groups.len();
    while k < n
        invariant
            n == gs.len(),
            k <= n,
            group_views(groups@) == gs.skip(k as int),
            groups@.len() == n - k,
            error_views(r@) == gs.take(k as int).map_values(
                |g: Seq<RenameActionView>| ValidationErrorView::Collision(g),
            ),
        decreases n - k,
    {
        assert(group_views(groups@)[0] == gs[k as int]);
        let ghost before = groups@;
        let g = groups.remove(0);
        assert(action_views(g@) == gs[k as int]);
        let ghost prev = r@;
        r.push(ValidationError::Collision(g));
        assert(error_views(r@) =~= error_views(prev).push(ValidationErrorView::Collision(gs[k as int])));
        assert(gs.take(k + 1) =~= gs.take(k as int).push(gs[k as int]));
        assert forall|m: int| 0 <= m < groups@.len() implies #[trigger] group_views(groups@)[m]
            == gs.skip(k + 1)[m] by {
            assert(groups@[m] == before[m + 1]);
            assert(group_views(before)[m + 1] == gs.skip(k as int)[m + 1]);
        }
        assert(group_views(groups@) =~= gs.skip(k + 1));
        k = k + 1;
    }
    assert(gs.take(n as int) =~= gs);
    r
}

fn has_distinct_targets_exec(g: &Vec<RenameAction>) -> (r: bool)
    ensures
        r == has_distinct_targets(action_views(g@)),
{
    if g.len() == 0 {
        return false;
    }
    let first = chars_of(g[0].target());
    let mut k: usize = 0;
    while k < g.len()
        invariant
            0 < g@.len(),
            first@ == g@[0]@.target,
            k <= g@.len(),
            forall|m: int| 0 <= m < k ==> (#[trigger] g@[m])@.target == g@[0]@.target,
        decreases g.len() - k,
    {
        let t = chars_of(g[k].target());
        if !crate::text::chars_eq(&t, &first) {
            assert(action_views(g@)[k as int].target != action_views(g@)[0].target);
            return true;
        }
        k = k + 1;
    }
    assert forall|m: int| 0 <= m < action_views(g@).len() implies #[trigger] action_views(g@)[m].target
        == action_views(g@)[0].target by {}
    false
}

/// Errors for groups of actions whose targets differ only by case.
pub fn validate_case_insensitive_collisions(rename_actions: &[RenameAction]) -> (r: Vec<
    ValidationError,
>)
    ensures
        error_views(r@) == case_insensitive_collision_errors(action_views(rename_actions@)),
{
    let same = case_key_matrix(rename_actions);
    let mut groups = duplicate_groups_exec::<Seq<char>>(rename_actions, &same, Ghost(target_case_key()));
    let ghost gs = group_views(groups@);
    let mut r: Vec<ValidationError> = Vec::new();
    let mut k: usize = 0;
    let n = groups.len();
    while k < n
        invariant
            n == gs.len(),
            k <= n,
            group_views(groups@) == gs.skip(k as int),
            groups@.len() == n - k,
            error_views(r@) == case_collision_errors_of(gs.take(k as int)),
        decreases n - k,
    {
        assert(group_views(groups@)[0] == gs[k as int]);
        let ghost before = groups@;
        let g = groups.remove(0);
        assert(action_views(g@) == gs[k as int]);
        assert(gs.take(k + 1).drop_last() =~= gs.take(k as int));
        assert(gs.take(k + 1).last() == gs[k as int]);
        if has_distinct_targets_exec(&g) {
            let ghost prev = r@;
            r.push(ValidationError::CaseInsensitiveCollision(g));
            assert(error_views(r@) =~= error_views(prev).push(
                ValidationErrorView::CaseInsensitiveCollision(gs[k as int]),
            ));
        }
        assert forall|m: int| 0 <= m < groups@.len() implies #[trigger] group_views(groups@)[m]
            == gs.skip(k + 1)[m] by {
            assert(groups@[m] == before[m + 1]);
            assert(group_views(before)[m + 1] == gs.skip(k as int)[m + 1]);
        }
        assert(group_views(groups@) =~= gs.skip(k + 1));
        k = k + 1;
    }
    assert(gs.take(n as int) =~= gs);
    r
}


// ---------------------------------------------------------------------------
// Existing targets
// ---------------------------------------------------------------------------
/// Whether action `i` targets a file that already exists, is not its own
/// source, and is not (up to case) the source of any action of the plan.
pub open spec fn target_exists_blocks(av: Seq<RenameActionView>, exists: Seq<bool>, i: int) -> bool {
    &&& exists[i]
    &&& utf8_components(av[i].target) != utf8_components(av[i].source)
    &&& !(exists|j: int|
        0 <= j < av.len() && #[trigger] unicode_lowercase(av[j].source) == unicode_lowercase(
            av[i].target,
        ))
}

/// A `TargetExists` error for each of the first `n` actions whose target
/// blocks the plan.
pub open spec fn target_exists_errors_upto(av: Seq<RenameActionView>, exists: Seq<bool>, n: int) -> Seq<
    ValidationErrorView,
>
    decreases n,
{
    if n <= 0 {
        seq![]
    } else {
        target_exists_errors_upto(av, exists, n - 1) + if target_exists_blocks(av, exists, n - 1) {
            seq![ValidationErrorView::TargetExists(av[n - 1])]
        } else {
            seq![]
        }
    }
}

pub open spec fn target_exists_errors(av: Seq<RenameActionView>, exists: Seq<bool>) -> Seq<
    ValidationErrorView,
> {
    target_exists_errors_upto(av, exists, av.len() as int)
}

/// Errors for targets that already exist on disk. `target_exists[i]` tells
/// whether the target of `rename_actions[i]` exists.
pub fn validate_existing_files(rename_actions: &[RenameAction], target_exists: &[bool]) -> (r: Vec<
    ValidationError,
>)
    requires
        target_exists@.len() == rename_actions@.len(),
    ensures
        error_views(r@) == target_exists_errors(action_views(rename_actions@), target_exists@),
{
    let ghost av = action_views(rename_actions@);
    let n = rename_actions.len();
    let mut sources: Vec<String> = Vec::new();
    let mut i: usize = 0;
    while i < n
        invariant
            n == rename_actions@.len(),
            i <= n,
            sources@.len() == i,
            forall|k: int|
                0 <= k < i ==> (#[trigger] sources@[k])@ == unicode_lowercase(rename_actions@[k]@.source),
        decreases n - i,
    {
        sources.push(to_lowercase(rename_actions[i].source()));
        i = i + 1;
    }
    let mut r: Vec<ValidationError> = Vec::new();
    let mut i: usize = 0;
    while i < n
        invariant
            n == rename_actions@.len(),
            av == action_views(rename_actions@),
            av.len() == n,
            target_exists@.len() == n,
            i <= n,
            sources@.len() == n,
            forall|k: int|
                0 <= k < n ==> (#[trigger] sources@[k])@ == unicode_lowercase(rename_actions@[k]@.source),
            error_views(r@) == target_exists_errors_upto(av, target_exists@, i as int),
        decreases n - i,
    {
        proof {
            lemma_action_views_take(rename_actions@, i as int);
        }
        if target_exists[i] {
            let target_comps = components(rename_actions[i].target());
            let source_comps = components(rename_actions[i].source());
            if !components_eq(&target_comps, &source_comps) {
                let key = to_lowercase(rename_actions[i].target());
                let mut freed = false;
                let mut j: usize = 0;
                while j < n
                    invariant
                        n == rename_actions@.len(),
                        av == action_views(rename_actions@),
                        av.len() == n,
                        i < n,
                        j <= n,
                        sources@.len() == n,
                        key@ == unicode_lowercase(av[i as int].target),
                        forall|k: int|
                            0 <= k < n ==> (#[trigger] sources@[k])@ == unicode_lowercase(
                                rename_actions@[k]@.source,
                            ),
                        freed == (exists|k: int|
                            0 <= k < j && #[trigger] unicode_lowercase(av[k].source)
                                == unicode_lowercase(av[i as int].target)),
                    decreases n - j,
                {
                    if sources[j] == key {
                        assert(unicode_lowercase(av[j as int].source) == unicode_lowercase(
                            av[i as int].target,
                        ));
                        freed = true;
                    }
                    j = j + 1;
                }
                if !freed {
                    let e = ValidationError::TargetExists(rename_actions[i].clone());
                    proof {
                        lemma_error_views_push(r@, e);
                    }
                    r.push(e);
                }
            }
        }
        i = i + 1;
    }
    r
}

// ---------------------------------------------------------------------------
// Windows reserved device names
// ---------------------------------------------------------------------------
/// ASCII uppercase of `c` (other characters unchanged).
pub open spec fn ascii_upper(c: char) -> char {
    if 'a' <= c && c <= 'z' {
        ((c as u32) - 32) as char
    } else {
        c
    }
}

pub fn ascii_upper_exec(c: char) -> (r: char)
    ensures
        r == ascii_upper(c),
{
    if 'a' <= c && c <= 'z' {
        ((c as u32 - 32) as u8) as char
    } else {
        c
    }
}

/// The part of a component name before its first `.`.
pub open spec fn stem_before_dot(s: Seq<char>) -> Seq<char>
    decreases s.len(),
{
    if s.len() == 0 {
        s
    } else if s[0] == '.' {
        seq![]
    } else {
        seq![s[0]] + stem_before_dot(s.drop_first())
    }
}

pub open spec fn is_ascii_digit(c: char) -> bool {
    '0' <= c && c <= '9'
}

/// The number that a sequence of decimal digits denotes.
pub open spec fn digits_value(d: Seq<char>) -> nat
    decreases d.len(),
{
    if d.len() == 0 {
        0
    } else {
        digits_value(d.drop_last()) * 10 + ((d.last() as nat) - 48) as nat
    }
}

/// The digits of an unsigned number: `s` without a leading `+`.
pub open spec fn unsigned_digits(s: Seq<char>) -> Seq<char> {
    if s.len() > 0 && s[0] == '+' {
        s.drop_first()
    } else {
        s
    }
}

pub open spec fn all_ascii_digits(d: Seq<char>) -> bool {
    forall|k: int| 0 <= k < d.len() ==> is_ascii_digit(#[trigger] d[k])
}

/// What std's `str::parse::<u8>` returns: an optional `+`, then one or more
/// ASCII digits denoting a value of at most 255.
pub open spec fn parse_u8_spec(s: Seq<char>) -> Option<nat> {
    let d = unsigned_digits(s);
    if d.len() > 0 && all_ascii_digits(d) && digits_value(d) <= 255 {
        Some(digits_value(d))
    } else {
        None
    }
}

/// Whether `name` is `prefix` followed by a number from 1 to 9 (as `u8`).
pub open spec fn is_reserved_numbered_spec(name: Seq<char>, prefix: Seq<char>) -> bool {
    name.len() >= prefix.len() && name.take(prefix.len() as int) == prefix && match parse_u8_spec(
        name.skip(prefix.len() as int),
    ) {
        Some(v) => 1 <= v && v <= 9,
        None => false,
    }
}

/// Whether a component is a Windows reserved device name: its part before
/// the first `.`, uppercased, is `CON`, `PRN`, `AUX`, `NUL`, or `COM`/`LPT`
/// followed by a number from 1 to 9.
pub open spec fn is_windows_reserved_name_spec(component: Seq<char>) -> bool {
    let n = stem_before_dot(component).map_values(|c: char| ascii_upper(c));
    n == seq!['C', 'O', 'N'] || n == seq!['P', 'R', 'N'] || n == seq!['A', 'U', 'X'] || n
        == seq!['N', 'U', 'L'] || is_reserved_numbered_spec(n, seq!['C', 'O', 'M'])
        || is_reserved_numbered_spec(n, seq!['L', 'P', 'T'])
}

proof fn lemma_digits_small(d: Seq<char>)
    requires
        forall|k: int| 0 <= k < d.len() ==> is_ascii_digit(#[trigger] d[k]),
    ensures
        (1 <= digits_value(d) && digits_value(d) <= 9) <==> (d.len() > 0 && (forall|k: int|
            0 <= k < d.len() - 1 ==> #[trigger] d[k] == '0') && '1' <= d.last() && d.last() <= '9'),
        digits_value(d) == 0 <==> (forall|k: int| 0 <= k < d.len() ==> #[trigger] d[k] == '0'),
    decreases d.len(),
{
    if d.len() > 0 {
        let p = d.drop_last();
        assert forall|k: int| 0 <= k < p.len() implies is_ascii_digit(#[trigger] p[k]) by {
            assert(p[k] == d[k]);
        }
        lemma_digits_small(p);
        assert forall|k: int| 0 <= k < d.len() - 1 implies #[trigger] d[k] == p[k] by {}
        if digits_value(p) > 0 {
            assert(digits_value(d) >= 10);
            let k0 = choose|k: int| 0 <= k < p.len() && #[trigger] p[k] != '0';
            assert(d[k0] != '0');
        }
    }
}

/// Whether a (non-empty, `+`-less or `+`-prefixed) suffix parses as a `u8`
/// from 1 to 9.
fn parses_to_device_number(s: &Vec<char>, from: usize) -> (r: bool)
    requires
        from <= s@.len(),
    ensures
        r == (match parse_u8_spec(s@.skip(from as int)) {
            Some(v) => 1 <= v && v <= 9,
            None => false,
        }),
{
    let ghost t = s@.skip(from as int);
    let mut start = from;
    if start < s.len() && s[start] == '+' {
        start = start + 1;
    }
    let ghost d = s@.skip(start as int);
    assert(d =~= unsigned_digits(t));
    if start >= s.len() {
        return false;
    }
    let mut k = start;
    while k < s.len()
        invariant
            start <= k <= s@.len(),
            start < s@.len(),
            d == s@.skip(start as int),
            t == s@.skip(from as int),
            d == unsigned_digits(t),
            forall|m: int| start <= m < k ==> is_ascii_digit(#[trigger] s@[m]),
        decreases s.len() - k,
    {
        if !('0' <= s[k] && s[k] <= '9') {
            assert(d[k - start] == s@[k as int]);
            assert(!is_ascii_digit(d[k - start]));
            assert(!all_ascii_digits(d));
            return false;
        }
        k = k + 1;
    }
    assert forall|m: int| 0 <= m < d.len() implies is_ascii_digit(#[trigger] d[m]) by {
        assert(d[m] == s@[start + m]);
    }
    proof {
        lemma_digits_small(d);
    }
    let mut all_zero = true;
    let mut k = start;
    while k + 1 < s.len()
        invariant
            start <= k < s@.len(),
            d == s@.skip(start as int),
            all_zero == (forall|m: int| 0 <= m < k - start ==> #[trigger] d[m] == '0'),
        decreases s.len() - k,
    {
        if s[k] != '0' {
            all_zero = false;
        }
        assert(d[k - start] == s@[k as int]);
        k = k + 1;
    }
    let last = s[s.len() - 1];
    assert(d.last() == last);
    all_zero && '1' <= last && last <= '9'
}

/// Whether `component` names a Windows device.
pub fn is_windows_reserved_name(component: &str) -> (r: bool)
    ensures
        r == is_windows_reserved_name_spec(component@),
{
    let chars = chars_of(component);
    let mut n: Vec<char> = Vec::new();
    let mut i: usize = 0;
    while i < chars.len() && chars[i] != '.'
        invariant
            i <= chars@.len(),
            forall|k: int| 0 <= k < i ==> chars@[k] != '.',
            n@ == chars@.take(i as int).map_values(|c: char| ascii_upper(c)),
        decreases chars.len() - i,
    {
        n.push(ascii_upper_exec(chars[i]));
        i = i + 1;
        assert(n@ =~= chars@.take(i as int).map_values(|c: char| ascii_upper(c)));
    }
    proof {
        lemma_stem_before_dot(chars@, i as int);
    }
    let ghost ns = n@;
    assert(ns == stem_before_dot(component@).map_values(|c: char| ascii_upper(c)));
    if n.len() == 3 {
        let (a, b, c) = (n[0], n[1], n[2]);
        if (a == 'C' && b == 'O' && c == 'N') || (a == 'P' && b == 'R' && c == 'N') || (a == 'A'
            && b == 'U' && c == 'X') || (a == 'N' && b == 'U' && c == 'L') {
            assert(ns =~= seq![a, b, c]);
            return true;
        }
    }
    proof {
        if n.len() == 3 {
            assert(ns =~= seq![ns[0], ns[1], ns[2]]);
        }
    }
    if n.len() >= 3 {
        let (a, b, c) = (n[0], n[1], n[2]);
        assert(ns.take(3) =~= seq![a, b, c]);
        if (a == 'C' && b == 'O' && c == 'M') || (a == 'L' && b == 'P' && c == 'T') {
            let res = parses_to_device_number(&n, 3);
            proof {
                if a == 'C' {
                    assert(!is_reserved_numbered_spec(ns, seq!['L', 'P', 'T']));
                } else {
                    assert(!is_reserved_numbered_spec(ns, seq!['C', 'O', 'M']));
                }
            }
            return res;
        }
        assert(!is_reserved_numbered_spec(ns, seq!['L', 'P', 'T']));
        assert(!is_reserved_numbered_spec(ns, seq!['C', 'O', 'M']));
    }
    false
}

proof fn lemma_stem_before_dot(s: Seq<char>, i: int)
    requires
        0 <= i <= s.len(),
        forall|k: int| 0 <= k < i ==> s[k] != '.',
        i == s.len() || s[i] == '.',
    ensures
        stem_before_dot(s) == s.take(i),
    decreases s.len(),
{
    if s.len() > 0 && i > 0 {
        lemma_stem_before_dot(s.drop_first(), i - 1);
        assert(seq![s[0]] + s.drop_first().take(i - 1) =~= s.take(i));
    } else if s.len() > 0 {
        assert(s.take(0) =~= seq![]);
    } else {
        assert(s.take(0) =~= s);
    }
}

/// `ReservedName` errors for the normal components of one target.
pub open spec fn reserved_errors_of(a: RenameActionView, comps: Seq<ComponentView>) -> Seq<
    ValidationErrorView,
>
    decreases comps.len(),
{
    if comps.len() == 0 {
        seq![]
    } else {
        reserved_errors_of(a, comps.drop_last()) + match comps.last() {
            ComponentView::Normal(name) => if is_windows_reserved_name_spec(name) {
                seq![ValidationErrorView::ReservedName { action: a, component: name }]
            } else {
                seq![]
            },
            _ => seq![],
        }
    }
}

/// `ReservedName` errors for each action in order, and for each of its target
/// components in order.
pub open spec fn reserved_name_errors(av: Seq<RenameActionView>) -> Seq<ValidationErrorView>
    decreases av.len(),
{
    if av.len() == 0 {
        seq![]
    } else {
        reserved_name_errors(av.drop_last()) + reserved_errors_of(
            av.last(),
            utf8_components(av.last().target),
        )
    }
}

/// Errors for target components that are Windows reserved device names.
pub fn validate_reserved_names(rename_actions: &[RenameAction]) -> (r: Vec<ValidationError>)
    ensures
        error_views(r@) == reserved_name_errors(action_views(rename_actions@)),
{
    let mut r: Vec<ValidationError> = Vec::new();
    let mut i: usize = 0;
    while i < rename_actions.len()
        invariant
            i <= rename_actions@.len(),
            error_views(r@) == reserved_name_errors(action_views(rename_actions@.take(i as int))),
        decreases rename_actions.len() - i,
    {
        proof {
            lemma_action_views_take(rename_actions@, i as int);
        }
        let comps = components(rename_actions[i].target());
        let ghost cv = crate::paths::component_views(comps@);
        let ghost start = error_views(r@);
        let mut j: usize = 0;
        while j < comps.len()
            invariant
                i < rename_actions@.len(),
                j <= comps@.len(),
                cv == crate::paths::component_views(comps@),
                error_views(r@) == start + reserved_errors_of(rename_actions@[i as int]@, cv.take(j as int)),
            decreases comps.len() - j,
        {
            assert(cv.take(j + 1).drop_last() =~= cv.take(j as int));
            assert(cv.take(j + 1).last() == comps@[j as int]@);
            match &comps[j] {
                PathComponent::Normal(name) => {
                    if is_windows_reserved_name(name.as_str()) {
                        let e = ValidationError::ReservedName {
                            action: rename_actions[i].clone(),
                            component: name.clone(),
                        };
                        proof {
                            lemma_error_views_push(r@, e);
                        }
                        r.push(e);
                    }
                },
                _ => {},
            }
            j = j + 1;
        }
        assert(cv.take(cv.len() as int) =~= cv);
        i = i + 1;
    }
    assert(rename_actions@.take(rename_actions@.len() as int) =~= rename_actions@);
    r
}

// ---------------------------------------------------------------------------
// Forbidden leading and trailing characters of components
// ---------------------------------------------------------------------------
/// The table characters that `name` starts with (among those forbidden at
/// the start), in table order.
pub open spec fn leading_matches(t: Seq<(char, bool, bool)>, name: Seq<char>) -> Seq<char>
    decreases t.len(),
{
    if t.len() == 0 {
        seq![]
    } else {
        leading_matches(t.drop_last(), name) + if t.last().1 && name.len() > 0 && name[0]
            == t.last().0 {
            seq![t.last().0]
        } else {
            seq![]
        }
    }
}

/// The table characters that `name` ends with (among those forbidden at
/// the end), in table order.
pub open spec fn trailing_matches(t: Seq<(char, bool, bool)>, name: Seq<char>) -> Seq<char>
    decreases t.len(),
{
    if t.len() == 0 {
        seq![]
    } else {
        trailing_matches(t.drop_last(), name) + if t.last().2 && name.len() > 0 && name.last()
            == t.last().0 {
            seq![t.last().0]
        } else {
            seq![]
        }
    }
}

pub open spec fn none_if_empty(s: Seq<char>) -> Option<Seq<char>> {
    if s.len() == 0 {
        None
    } else {
        Some(s)
    }
}

/// Errors for the normal components of one target that start or end with a
/// forbidden character.
pub open spec fn leading_trailing_errors_of(a: RenameActionView, comps: Seq<ComponentView>) -> Seq<
    ValidationErrorView,
>
    decreases comps.len(),
{
    if comps.len() == 0 {
        seq![]
    } else {
        leading_trailing_errors_of(a, comps.drop_last()) + match comps.last() {
            ComponentView::Normal(name) => {
                let l = leading_matches(leading_trailing_table(), name);
                let t = trailing_matches(leading_trailing_table(), name);
                if l.len() > 0 || t.len() > 0 {
                    seq![
                        ValidationErrorView::ForbiddenCharacterLeadingOrTrailingPathComponent {
                            action: a,
                            component: name,
                            forbidden_leading_characters: none_if_empty(l),
                            forbidden_trailing_characters: none_if_empty(t),
                        },
                    ]
                } else {
                    seq![]
                }
            },
            _ => seq![],
        }
    }
}

/// Such errors for each action in order, and each of its components in order.
pub open spec fn leading_trailing_errors(av: Seq<RenameActionView>) -> Seq<ValidationErrorView>
    decreases av.len(),
{
    if av.len() == 0 {
        seq![]
    } else {
        leading_trailing_errors(av.drop_last()) + leading_trailing_errors_of(
            av.last(),
            utf8_components(av.last().target),
        )
    }
}

fn matching_characters(
    table: &Vec<ForbiddenLeadingOrTrailingChar>,
    name: &Vec<char>,
    leading: bool,
) -> (r: Vec<char>)
    requires
        table@.len() == leading_trailing_table().len(),
        forall|i: int|
            0 <= i < table@.len() ==> (#[trigger] table@[i]).char_spec()
                == leading_trailing_table()[i].0 && table@[i].leading_spec()
                == leading_trailing_table()[i].1 && table@[i].trailing_spec()
                == leading_trailing_table()[i].2,
    ensures
        leading ==> r@ == leading_matches(leading_trailing_table(), name@),
        !leading ==> r@ == trailing_matches(leading_trailing_table(), name@),
{
    let ghost t = leading_trailing_table();
    let mut r: Vec<char> = Vec::new();
    let mut i: usize = 0;
    while i < table.len()
        invariant
            t == leading_trailing_table(),
            i <= table@.len(),
            table@.len() == t.len(),
            forall|k: int|
                0 <= k < table@.len() ==> (#[trigger] table@[k]).char_spec() == t[k].0
                    && table@[k].leading_spec() == t[k].1 && table@[k].trailing_spec() == t[k].2,
            leading ==> r@ == leading_matches(t.take(i as int), name@),
            !leading ==> r@ == trailing_matches(t.take(i as int), name@),
        decreases table.len() - i,
    {
        assert(t.take(i + 1).drop_last() =~= t.take(i as int));
        assert(t.take(i + 1).last() == t[i as int]);
        let entry = table[i];
        let c = entry.char();
        if leading {
            if entry.leading() && name.len() > 0 && name[0] == c {
                r.push(c);
            }
        } else {
            if entry.trailing() && name.len() > 0 && name[name.len() - 1] == c {
                r.push(c);
            }
        }
        i = i + 1;
    }
    assert(t.take(table@.len() as int) =~= t);
    r
}

/// Errors for target components with forbidden leading or trailing characters.
pub fn validate_forbidden_leading_or_trailing_characters_in_path_component(
    rename_actions: &[RenameAction],
) -> (r: Vec<ValidationError>)
    ensures
        error_views(r@) == leading_trailing_errors(action_views(rename_actions@)),
{
    let table = forbidden_leading_or_trailing_characters();
    let mut r: Vec<ValidationError> = Vec::new();
    let mut i: usize = 0;
    while i < rename_actions.len()
        invariant
            i <= rename_actions@.len(),
            table@.len() == leading_trailing_table().len(),
            forall|k: int|
                0 <= k < table@.len() ==> (#[trigger] table@[k]).char_spec()
                    == leading_trailing_table()[k].0 && table@[k].leading_spec()
                    == leading_trailing_table()[k].1 && table@[k].trailing_spec()
                    == leading_trailing_table()[k].2,
            error_views(r@) == leading_trailing_errors(action_views(rename_actions@.take(i as int))),
        decreases rename_actions.len() - i,
    {
        proof {
            lemma_action_views_take(rename_actions@, i as int);
        }
        let comps = components(rename_actions[i].target());
        let ghost cv = crate::paths::component_views(comps@);
        let ghost start = error_views(r@);
        let mut j: usize = 0;
        while j < comps.len()
            invariant
                i < rename_actions@.len(),
                j <= comps@.len(),
                cv == crate::paths::component_views(comps@),
                table@.len() == leading_trailing_table().len(),
                forall|k: int|
                    0 <= k < table@.len() ==> (#[trigger] table@[k]).char_spec()
                        == leading_trailing_table()[k].0 && table@[k].leading_spec()
                        == leading_trailing_table()[k].1 && table@[k].trailing_spec()
                        == leading_trailing_table()[k].2,
                error_views(r@) == start + leading_trailing_errors_of(
                    rename_actions@[i as int]@,
                    cv.take(j as int),
                ),
            decreases comps.len() - j,
        {
            assert(cv.take(j + 1).drop_last() =~= cv.take(j as int));
            assert(cv.take(j + 1).last() == comps@[j as int]@);
            match &comps[j] {
                PathComponent::Normal(name) => {
                    let chars = chars_of(name.as_str());
                    let leading = matching_characters(&table, &chars, true);
                    let trailing = matching_characters(&table, &chars, false);
                    if leading.len() > 0 || trailing.len() > 0 {
                        let e = ValidationError::ForbiddenCharacterLeadingOrTrailingPathComponent {
                            action: rename_actions[i].clone(),
                            component: name.clone(),
                            forbidden_leading_characters: if leading.len() == 0 {
                                None
                            } else {
                                Some(leading)
                            },
                            forbidden_trailing_characters: if trailing.len() == 0 {
                                None
                            } else {
                                Some(trailing)
                            },
                        };
                        proof {
                            lemma_error_views_push(r@, e);
                        }
                        r.push(e);
                    }
                },
                _ => {},
            }
            j = j + 1;
        }
        assert(cv.take(cv.len() as int) =~= cv);
        i = i + 1;
    }
    assert(rename_actions@.take(rename_actions@.len() as int) =~= rename_actions@);
    r
}

// ---------------------------------------------------------------------------
// The whole plan
// ---------------------------------------------------------------------------
/// All errors of a plan, in the order in which the checks run.
pub open spec fn plan_errors(av: Seq<RenameActionView>, exists: Seq<bool>, sep: char) -> Seq<
    ValidationErrorView,
> {
    double_separator_errors(av, sep) + collision_errors(av) + case_insensitive_collision_errors(av)
        + target_exists_errors(av, exists) + reserved_name_errors(av) + leading_trailing_errors(av)
        + path_too_long_errors(av)
}


// ---------------------------------------------------------------------------
// What an accepted plan is
// ---------------------------------------------------------------------------
/// Whether a normal path component is acceptable: not a device name, no
/// leading or trailing space, no trailing period.
pub open spec fn component_name_ok(name: Seq<char>) -> bool {
    &&& !is_windows_reserved_name_spec(name)
    &&& !(name.len() > 0 && name[0] == ' ')
    &&& !(name.len() > 0 && name.last() == ' ')
    &&& !(name.len() > 0 && name.last() == '.')
}

pub open spec fn component_ok(c: ComponentView) -> bool {
    match c {
        ComponentView::Normal(name) => component_name_ok(name),
        _ => true,
    }
}

/// A rename plan that validation accepts, stated directly: no target holds
/// a doubled separator; no two targets are the same path; targets equal up
/// to case are equal; no target blocks the plan by existing; every normal
/// target component is acceptable; every target is shorter than
/// [`MAX_PATH_LENGTH`] bytes.
pub open spec fn plan_is_valid(av: Seq<RenameActionView>, exists: Seq<bool>, sep: char) -> bool {
    &&& forall|i: int| 0 <= i < av.len() ==> !contains_spec(#[trigger] av[i].target, seq![sep, sep])
    &&& forall|i: int, j: int|
        0 <= i < j < av.len() ==> #[trigger] utf8_components(av[i].target) != #[trigger] utf8_components(
            av[j].target,
        )
    &&& forall|i: int, j: int|
        0 <= i < av.len() && 0 <= j < av.len() && #[trigger] unicode_lowercase(av[i].target)
            == #[trigger] unicode_lowercase(av[j].target) ==> av[i].target == av[j].target
    &&& forall|i: int| 0 <= i < av.len() ==> !#[trigger] target_exists_blocks(av, exists, i)
    &&& forall|i: int, k: int|
        0 <= i < av.len() && 0 <= k < utf8_components(av[i].target).len() ==> component_ok(
            #[trigger] utf8_components(av[i].target)[k],
        )
    &&& forall|i: int| 0 <= i < av.len() ==> byte_len(#[trigger] av[i].target) < MAX_PATH_LENGTH
}

proof fn lemma_double_separator_errors_empty(av: Seq<RenameActionView>, sep: char)
    ensures
        double_separator_errors(av, sep).len() == 0 <==> forall|i: int|
            0 <= i < av.len() ==> !contains_spec(#[trigger] av[i].target, seq![sep, sep]),
    decreases av.len(),
{
    if av.len() > 0 {
        let p = av.drop_last();
        lemma_double_separator_errors_empty(p, sep);
        if double_separator_errors(av, sep).len() == 0 {
            assert forall|i: int| 0 <= i < av.len() implies !contains_spec(
                #[trigger] av[i].target,
                seq![sep, sep],
            ) by {
                if i < av.len() - 1 {
                    assert(p[i] == av[i]);
                    assert(!contains_spec(p[i].target, seq![sep, sep]));
                }
            }
        }
        if forall|i: int| 0 <= i < av.len() ==> !contains_spec(#[trigger] av[i].target, seq![sep, sep]) {
            assert forall|i: int| 0 <= i < p.len() implies !contains_spec(
                #[trigger] p[i].target,
                seq![sep, sep],
            ) by {
                assert(p[i] == av[i]);
                assert(!contains_spec(av[i].target, seq![sep, sep]));
            }
            assert(!contains_spec(av[av.len() - 1].target, seq![sep, sep]));
        }
    }
}

proof fn lemma_path_too_long_errors_empty(av: Seq<RenameActionView>)
    ensures
        path_too_long_errors(av).len() == 0 <==> forall|i: int|
            0 <= i < av.len() ==> byte_len(#[trigger] av[i].target) < MAX_PATH_LENGTH,
    decreases av.len(),
{
    if av.len() > 0 {
        let p = av.drop_last();
        lemma_path_too_long_errors_empty(p);
        if path_too_long_errors(av).len() == 0 {
            assert forall|i: int| 0 <= i < av.len() implies byte_len(#[trigger] av[i].target)
                < MAX_PATH_LENGTH by {
                if i < av.len() - 1 {
                    assert(p[i] == av[i]);
                    assert(byte_len(p[i].target) < MAX_PATH_LENGTH);
                }
            }
        }
        if forall|i: int| 0 <= i < av.len() ==> byte_len(#[trigger] av[i].target) < MAX_PATH_LENGTH {
            assert forall|i: int| 0 <= i < p.len() implies byte_len(#[trigger] p[i].target)
                < MAX_PATH_LENGTH by {
                assert(p[i] == av[i]);
                assert(byte_len(av[i].target) < MAX_PATH_LENGTH);
            }
            assert(byte_len(av[av.len() - 1].target) < MAX_PATH_LENGTH);
        }
    }
}

proof fn lemma_target_exists_errors_empty(av: Seq<RenameActionView>, exists: Seq<bool>, n: int)
    requires
        0 <= n <= av.len(),
    ensures
        target_exists_errors_upto(av, exists, n).len() == 0 <==> forall|i: int|
            0 <= i < n ==> !#[trigger] target_exists_blocks(av, exists, i),
    decreases n,
{
    if n > 0 {
        lemma_target_exists_errors_empty(av, exists, n - 1);
    }
}

proof fn lemma_reserved_errors_of_empty(a: RenameActionView, comps: Seq<ComponentView>)
    ensures
        reserved_errors_of(a, comps).len() == 0 <==> forall|k: int|
            0 <= k < comps.len() ==> match #[trigger] comps[k] {
                ComponentView::Normal(name) => !is_windows_reserved_name_spec(name),
                _ => true,
            },
    decreases comps.len(),
{
    if comps.len() > 0 {
        let p = comps.drop_last();
        lemma_reserved_errors_of_empty(a, p);
        if reserved_errors_of(a, comps).len() == 0 {
            assert forall|k: int| 0 <= k < comps.len() implies match #[trigger] comps[k] {
                ComponentView::Normal(name) => !is_windows_reserved_name_spec(name),
                _ => true,
            } by {
                if k < comps.len() - 1 {
                    assert(p[k] == comps[k]);
                }
            }
        }
        if forall|k: int| 0 <= k < comps.len() ==> match #[trigger] comps[k] {
            ComponentView::Normal(name) => !is_windows_reserved_name_spec(name),
            _ => true,
        } {
            assert forall|k: int| 0 <= k < p.len() implies match #[trigger] p[k] {
                ComponentView::Normal(name) => !is_windows_reserved_name_spec(name),
                _ => true,
            } by {
                assert(p[k] == comps[k]);
            }
            let l = comps[comps.len() - 1];
        }
    }
}

proof fn lemma_leading_trailing_of_name(name: Seq<char>)
    ensures
        leading_matches(leading_trailing_table(), name).len() > 0 <==> (name.len() > 0 && name[0]
            == ' '),
        trailing_matches(leading_trailing_table(), name).len() > 0 <==> (name.len() > 0 && (
        name.last() == ' ' || name.last() == '.')),
{
    let t = leading_trailing_table();
    let t1 = t.drop_last();
    assert(t1.drop_last() =~= Seq::<(char, bool, bool)>::empty());
    assert(t1.last() == (' ', true, true));
    assert(t.last() == ('.', false, true));
    assert(leading_matches(t1.drop_last(), name) =~= Seq::<char>::empty());
    assert(trailing_matches(t1.drop_last(), name) =~= Seq::<char>::empty());
    assert(leading_matches(t1, name) =~= (if name.len() > 0 && name[0] == ' ' {
        seq![' ']
    } else {
        Seq::<char>::empty()
    }));
    assert(leading_matches(t, name) =~= leading_matches(t1, name));
    assert(trailing_matches(t1, name) =~= (if name.len() > 0 && name.last() == ' ' {
        seq![' ']
    } else {
        Seq::<char>::empty()
    }));
    assert(trailing_matches(t, name) =~= trailing_matches(t1, name) + (if name.len() > 0
        && name.last() == '.' {
        seq!['.']
    } else {
        Seq::<char>::empty()
    }));
}

proof fn lemma_leading_trailing_errors_of_empty(a: RenameActionView, comps: Seq<ComponentView>)
    ensures
        leading_trailing_errors_of(a, comps).len() == 0 <==> forall|k: int|
            0 <= k < comps.len() ==> match #[trigger] comps[k] {
                ComponentView::Normal(name) => !(name.len() > 0 && name[0] == ' ') && !(name.len()
                    > 0 && name.last() == ' ') && !(name.len() > 0 && name.last() == '.'),
                _ => true,
            },
    decreases comps.len(),
{
    if comps.len() > 0 {
        let p = comps.drop_last();
        lemma_leading_trailing_errors_of_empty(a, p);
        match comps.last() {
            ComponentView::Normal(name) => {
                lemma_leading_trailing_of_name(name);
            },
            _ => {},
        }
        if leading_trailing_errors_of(a, comps).len() == 0 {
            assert forall|k: int| 0 <= k < comps.len() implies match #[trigger] comps[k] {
                ComponentView::Normal(name) => !(name.len() > 0 && name[0] == ' ') && !(name.len()
                    > 0 && name.last() == ' ') && !(name.len() > 0 && name.last() == '.'),
                _ => true,
            } by {
                if k < comps.len() - 1 {
                    assert(p[k] == comps[k]);
                }
            }
        }
        if forall|k: int| 0 <= k < comps.len() ==> match #[trigger] comps[k] {
            ComponentView::Normal(name) => !(name.len() > 0 && name[0] == ' ') && !(name.len()
                > 0 && name.last() == ' ') && !(name.len() > 0 && name.last() == '.'),
            _ => true,
        } {
            assert forall|k: int| 0 <= k < p.len() implies match #[trigger] p[k] {
                ComponentView::Normal(name) => !(name.len() > 0 && name[0] == ' ') && !(name.len()
                    > 0 && name.last() == ' ') && !(name.len() > 0 && name.last() == '.'),
                _ => true,
            } by {
                assert(p[k] == comps[k]);
            }
            let l = comps[comps.len() - 1];
        }
    }
}

proof fn lemma_component_errors_empty(av: Seq<RenameActionView>)
    ensures
        (reserved_name_errors(av).len() == 0 && leading_trailing_errors(av).len() == 0) <==> forall|
            i: int,
            k: int,
        |
            0 <= i < av.len() && 0 <= k < utf8_components(av[i].target).len() ==> component_ok(
                #[trigger] utf8_components(av[i].target)[k],
            ),
    decreases av.len(),
{
    if av.len() > 0 {
        let last = av.last();
        let comps = utf8_components(last.target);
        lemma_component_errors_empty(av.drop_last());
        lemma_reserved_errors_of_empty(last, comps);
        lemma_leading_trailing_errors_of_empty(last, comps);
        assert forall|i: int| 0 <= i < av.len() - 1 implies #[trigger] av.drop_last()[i] == av[i] by {}
        if reserved_name_errors(av).len() == 0 && leading_trailing_errors(av).len() == 0 {
            assert forall|i: int, k: int|
                0 <= i < av.len() && 0 <= k < utf8_components(av[i].target).len() implies component_ok(
                #[trigger] utf8_components(av[i].target)[k],
            ) by {
                if i == av.len() - 1 {
                    let c = comps[k];
                    match c {
                        ComponentView::Normal(name) => {},
                        _ => {},
                    }
                } else {
                    assert(av.drop_last()[i] == av[i]);
                }
            }
        }
        if forall|i: int, k: int|
            0 <= i < av.len() && 0 <= k < utf8_components(av[i].target).len() ==> component_ok(
                #[trigger] utf8_components(av[i].target)[k],
            ) {
            assert forall|k: int| 0 <= k < comps.len() implies component_ok(#[trigger] comps[k]) by {
                assert(av[av.len() - 1] == last);
            }
            assert forall|i: int, k: int|
                0 <= i < av.drop_last().len() && 0 <= k < utf8_components(
                    av.drop_last()[i].target,
                ).len() implies component_ok(
                #[trigger] utf8_components(av.drop_last()[i].target)[k],
            ) by {
                assert(av.drop_last()[i] == av[i]);
            }
        }
    }
}

// Facts about groups of actions with equal keys.
proof fn lemma_group_nonempty<K>(av: Seq<RenameActionView>, key: spec_fn(RenameActionView) -> K, k: K)
    ensures
        key_group(av, key, k).len() >= 1 ==> exists|i: int| 0 <= i < av.len() && key(av[i]) == k,
        key_group(av, key, k).len() >= 2 ==> exists|i: int, j: int|
            0 <= i < j < av.len() && key(av[i]) == k && key(av[j]) == k,
    decreases av.len(),
{
    if av.len() > 0 {
        let p = av.drop_last();
        lemma_group_nonempty(p, key, k);
        if key_group(p, key, k).len() >= 1 {
            let i = choose|i: int| 0 <= i < p.len() && key(p[i]) == k;
            assert(av[i] == p[i]);
        }
        if key_group(p, key, k).len() >= 2 {
            let (i, j) = choose|i: int, j: int| 0 <= i < j < p.len() && key(p[i]) == k && key(p[j]) == k;
            assert(av[i] == p[i] && av[j] == p[j]);
        }
    }
}

proof fn lemma_group_of_pair<K>(av: Seq<RenameActionView>, key: spec_fn(RenameActionView) -> K, i: int, j: int)
    requires
        0 <= i < j < av.len(),
        key(av[i]) == key(av[j]),
    ensures
        key_group(av, key, key(av[i])).len() >= 2,
    decreases av.len(),
{
    let p = av.drop_last();
    if j < av.len() - 1 {
        assert(p[i] == av[i] && p[j] == av[j]);
        lemma_group_of_pair(p, key, i, j);
    } else {
        assert(p[i] == av[i]);
        lemma_group_member(p, key, i);
    }
}

proof fn lemma_group_member<K>(av: Seq<RenameActionView>, key: spec_fn(RenameActionView) -> K, i: int)
    requires
        0 <= i < av.len(),
    ensures
        exists|m: int|
            0 <= m < key_group(av, key, key(av[i])).len() && #[trigger] key_group(av, key, key(av[i]))[m]
                == av[i],
    decreases av.len(),
{
    let p = av.drop_last();
    let k = key(av[i]);
    if i < av.len() - 1 {
        assert(p[i] == av[i]);
        lemma_group_member(p, key, i);
        let m = choose|m: int| 0 <= m < key_group(p, key, k).len() && #[trigger] key_group(p, key, k)[m] == av[i];
        assert(key_group(av, key, k)[m] == key_group(p, key, k)[m]);
    } else {
        assert(key_group(av, key, k).last() == av[i]);
    }
}

proof fn lemma_group_members_have_key<K>(av: Seq<RenameActionView>, key: spec_fn(RenameActionView) -> K, k: K, m: int)
    requires
        0 <= m < key_group(av, key, k).len(),
    ensures
        exists|i: int| 0 <= i < av.len() && av[i] == key_group(av, key, k)[m] && key(av[i]) == k,
    decreases av.len(),
{
    let p = av.drop_last();
    if m < key_group(p, key, k).len() {
        lemma_group_members_have_key(p, key, k, m);
        let i = choose|i: int| 0 <= i < p.len() && p[i] == key_group(p, key, k)[m] && key(p[i]) == k;
        assert(av[i] == p[i]);
    } else {
        assert(key_group(av, key, k)[m] == av.last());
    }
}

proof fn lemma_first_occurrence<K>(av: Seq<RenameActionView>, key: spec_fn(RenameActionView) -> K, i: int)
    requires
        0 <= i < av.len(),
    ensures
        exists|f: int| 0 <= f <= i && key(av[f]) == key(av[i]) && !key_seen_before(av, key, f),
    decreases i,
{
    if key_seen_before(av, key, i) {
        let j = choose|j: int| 0 <= j < i && #[trigger] key(av[j]) == key(av[i]);
        lemma_first_occurrence(av, key, j);
    }
}

proof fn lemma_duplicate_groups_members<K>(av: Seq<RenameActionView>, key: spec_fn(RenameActionView) -> K, n: int)
    requires
        0 <= n <= av.len(),
    ensures
        forall|m: int| 0 <= m < duplicate_groups_upto(av, key, n).len() ==> exists|f: int|
            0 <= f < n && #[trigger] duplicate_groups_upto(av, key, n)[m] == key_group(av, key, key(av[f]))
                && key_group(av, key, key(av[f])).len() > 1,
        forall|f: int|
            0 <= f < n && !key_seen_before(av, key, f) && key_group(av, key, key(av[f])).len() > 1
                ==> exists|m: int|
                0 <= m < duplicate_groups_upto(av, key, n).len() && #[trigger] duplicate_groups_upto(
                    av,
                    key,
                    n,
                )[m] == key_group(av, key, key(av[f])),
    decreases n,
{
    if n > 0 {
        lemma_duplicate_groups_members(av, key, n - 1);
        let prev = duplicate_groups_upto(av, key, n - 1);
        let cur = duplicate_groups_upto(av, key, n);
        assert forall|m: int| 0 <= m < cur.len() implies exists|f: int|
            0 <= f < n && #[trigger] cur[m] == key_group(av, key, key(av[f])) && key_group(av, key, key(av[f])).len() > 1 by {
            if m < prev.len() {
                assert(cur[m] == prev[m]);
                let f = choose|f: int| 0 <= f < n - 1 && #[trigger] prev[m] == key_group(av, key, key(av[f])) && key_group(av, key, key(av[f])).len() > 1;
            } else {
                assert(cur[m] == key_group(av, key, key(av[n - 1])));
            }
        }
        assert forall|f: int|
            0 <= f < n && !key_seen_before(av, key, f) && key_group(av, key, key(av[f])).len() > 1
            implies exists|m: int| 0 <= m < cur.len() && #[trigger] cur[m] == key_group(av, key, key(av[f])) by {
            if f < n - 1 {
                let m = choose|m: int| 0 <= m < prev.len() && #[trigger] prev[m] == key_group(av, key, key(av[f]));
                assert(cur[m] == prev[m]);
            } else {
                assert(cur[prev.len() as int] == key_group(av, key, key(av[f])));
            }
        }
    }
}

proof fn lemma_duplicate_groups_empty<K>(av: Seq<RenameActionView>, key: spec_fn(RenameActionView) -> K)
    ensures
        duplicate_groups(av, key).len() == 0 <==> forall|i: int, j: int|
            0 <= i < j < av.len() ==> #[trigger] key(av[i]) != #[trigger] key(av[j]),
{
    let n = av.len() as int;
    lemma_duplicate_groups_members(av, key, n);
    if duplicate_groups(av, key).len() > 0 {
        let f = choose|f: int|
            0 <= f < n && #[trigger] duplicate_groups_upto(av, key, n)[0] == key_group(av, key, key(av[f]))
                && key_group(av, key, key(av[f])).len() > 1;
        lemma_group_nonempty(av, key, key(av[f]));
    }
    if exists|i: int, j: int| 0 <= i < j < av.len() && #[trigger] key(av[i]) == #[trigger] key(av[j]) {
        let (i, j) = choose|i: int, j: int| 0 <= i < j < av.len() && #[trigger] key(av[i]) == #[trigger] key(av[j]);
        lemma_first_occurrence(av, key, i);
        let f = choose|f: int| 0 <= f <= i && key(av[f]) == key(av[i]) && !key_seen_before(av, key, f);
        lemma_group_of_pair(av, key, i, j);
        assert(key_group(av, key, key(av[f])) == key_group(av, key, key(av[i])));
    }
}

proof fn lemma_case_errors_of_empty(gs: Seq<Seq<RenameActionView>>)
    ensures
        case_collision_errors_of(gs).len() == 0 <==> forall|m: int|
            0 <= m < gs.len() ==> !has_distinct_targets(#[trigger] gs[m]),
    decreases gs.len(),
{
    if gs.len() > 0 {
        let p = gs.drop_last();
        lemma_case_errors_of_empty(p);
        if case_collision_errors_of(gs).len() == 0 {
            assert forall|m: int| 0 <= m < gs.len() implies !has_distinct_targets(#[trigger] gs[m]) by {
                if m < gs.len() - 1 {
                    assert(p[m] == gs[m]);
                }
            }
        }
        if forall|m: int| 0 <= m < gs.len() ==> !has_distinct_targets(#[trigger] gs[m]) {
            assert forall|m: int| 0 <= m < p.len() implies !has_distinct_targets(#[trigger] p[m]) by {
                assert(p[m] == gs[m]);
            }
            assert(!has_distinct_targets(gs[gs.len() - 1]));
        }
    }
}

proof fn lemma_case_collisions_empty(av: Seq<RenameActionView>)
    ensures
        case_insensitive_collision_errors(av).len() == 0 <==> forall|i: int, j: int|
            0 <= i < av.len() && 0 <= j < av.len() && #[trigger] unicode_lowercase(av[i].target)
                == #[trigger] unicode_lowercase(av[j].target) ==> av[i].target == av[j].target,
{
    let key = target_case_key();
    let n = av.len() as int;
    let gs = duplicate_groups(av, key);
    lemma_duplicate_groups_members(av, key, n);
    lemma_case_errors_of_empty(gs);
    if case_insensitive_collision_errors(av).len() > 0 {
        let m = choose|m: int| 0 <= m < gs.len() && has_distinct_targets(#[trigger] gs[m]);
        let g = gs[m];
        let f = choose|f: int|
            0 <= f < n && #[trigger] duplicate_groups_upto(av, key, n)[m] == key_group(av, key, key(av[f]))
                && key_group(av, key, key(av[f])).len() > 1;
        let k = choose|k: int| 0 <= k < g.len() && #[trigger] g[k].target != g[0].target;
        lemma_group_members_have_key(av, key, key(av[f]), 0);
        lemma_group_members_have_key(av, key, key(av[f]), k);
        let i = choose|i: int| 0 <= i < av.len() && av[i] == key_group(av, key, key(av[f]))[0] && key(av[i]) == key(av[f]);
        let j = choose|j: int| 0 <= j < av.len() && av[j] == key_group(av, key, key(av[f]))[k] && key(av[j]) == key(av[f]);
        assert(unicode_lowercase(av[i].target) == unicode_lowercase(av[j].target));
        assert(av[i].target != av[j].target);
    }
    if exists|i: int, j: int|
        0 <= i < av.len() && 0 <= j < av.len() && #[trigger] unicode_lowercase(av[i].target)
            == #[trigger] unicode_lowercase(av[j].target) && av[i].target != av[j].target {
        let (i, j) = choose|i: int, j: int|
            0 <= i < av.len() && 0 <= j < av.len() && #[trigger] unicode_lowercase(av[i].target)
                == #[trigger] unicode_lowercase(av[j].target) && av[i].target != av[j].target;
        let (a, b) = if i < j {
            (i, j)
        } else {
            (j, i)
        };
        assert(key(av[a]) == key(av[b]));
        lemma_group_of_pair(av, key, a, b);
        lemma_first_occurrence(av, key, a);
        let f = choose|f: int| 0 <= f <= a && key(av[f]) == key(av[a]) && !key_seen_before(av, key, f);
        let g = key_group(av, key, key(av[a]));
        assert(key_group(av, key, key(av[f])) == g);
        let m = choose|m: int| 0 <= m < gs.len() && #[trigger] duplicate_groups_upto(av, key, n)[m] == g;
        lemma_group_member(av, key, a);
        lemma_group_member(av, key, b);
        let ma = choose|ma: int| 0 <= ma < g.len() && g[ma] == av[a];
        let mb = choose|mb: int| 0 <= mb < g.len() && g[mb] == av[b];
        assert(has_distinct_targets(gs[m])) by {
            if g[ma].target != g[0].target {
            } else {
                assert(g[mb].target != g[0].target);
            }
        }
    }
}

/// A plan is accepted (validation finds no error) exactly when it is valid
/// as [`plan_is_valid`] states it.
pub proof fn lemma_plan_accepted_iff_valid(av: Seq<RenameActionView>, exists: Seq<bool>, sep: char)
    requires
        exists.len() == av.len(),
    ensures
        plan_errors(av, exists, sep).len() == 0 <==> plan_is_valid(av, exists, sep),
{
    lemma_double_separator_errors_empty(av, sep);
    lemma_duplicate_groups_empty(av, target_path_key());
    lemma_case_collisions_empty(av);
    lemma_target_exists_errors_empty(av, exists, av.len() as int);
    lemma_component_errors_empty(av);
    lemma_path_too_long_errors_empty(av);
    assert(collision_errors(av).len() == duplicate_groups(av, target_path_key()).len());
    let key = target_path_key();
    if duplicate_groups(av, key).len() == 0 {
        assert forall|i: int, j: int| 0 <= i < j < av.len() implies #[trigger] utf8_components(
            av[i].target,
        ) != #[trigger] utf8_components(av[j].target) by {
            assert(key(av[i]) != key(av[j]));
        }
    }
    if forall|i: int, j: int|
        0 <= i < j < av.len() ==> #[trigger] utf8_components(av[i].target) != #[trigger] utf8_components(
            av[j].target,
        ) {
        assert forall|i: int, j: int| 0 <= i < j < av.len() implies #[trigger] key(av[i]) != #[trigger] key(
            av[j],
        ) by {
            assert(utf8_components(av[i].target) != utf8_components(av[j].target));
        }
    }
}

fn append_errors(r: &mut Vec<ValidationError>, mut more: Vec<ValidationError>)
    ensures
        error_views(final(r)@) == error_views(old(r)@) + error_views(more@),
{
    let ghost m = more@;
    r.append(&mut more);
    assert(error_views(r@) =~= error_views(old(r)@) + error_views(m));
}

/// Validates a rename plan: every error, in the order: doubled separators
/// (with `sep` the platform separator), collisions, case-insensitive
/// collisions, existing targets, reserved names, forbidden leading or
/// trailing characters, over-long targets. `target_exists[i]` tells whether
/// the target of `rename_actions[i]` exists on disk.
pub fn validate_rename_actions_with_separator(
    rename_actions: &[RenameAction],
    target_exists: &[bool],
    sep: char,
) -> (r: Vec<ValidationError>)
    requires
        target_exists@.len() == rename_actions@.len(),
    ensures
        error_views(r@) == plan_errors(action_views(rename_actions@), target_exists@, sep),
{
    let mut r = validate_double_separators(rename_actions, sep);
    append_errors(&mut r, validate_collisions(rename_actions));
    append_errors(&mut r, validate_case_insensitive_collisions(rename_actions));
    append_errors(&mut r, validate_existing_files(rename_actions, target_exists));
    append_errors(&mut r, validate_reserved_names(rename_actions));
    append_errors(
        &mut r,
        validate_forbidden_leading_or_trailing_characters_in_path_component(rename_actions),
    );
    append_errors(&mut r, validate_target_path_too_long(rename_actions));
    r
}

/// Validates a rename plan with the platform's path separator; see
/// [`validate_rename_actions_with_separator`].
pub fn validate_rename_actions(rename_actions: &[RenameAction], target_exists: &[bool]) -> (r: Vec<
    ValidationError,
>)
    requires
        target_exists@.len() == rename_actions@.len(),
    ensures
        exists|sep: char|
            (sep == '/' || sep == '\\') && error_views(r@) == plan_errors(
                action_views(rename_actions@),
                target_exists@,
                sep,
            ),
{
    let sep = main_separator();
    validate_rename_actions_with_separator(rename_actions, target_exists, sep)
}

// ---------------------------------------------------------------------------
// Target path length
// ---------------------------------------------------------------------------
/// The length in bytes of the UTF-8 encoding of `s`, as `str::len` reports it.
pub open spec fn byte_len(s: Seq<char>) -> nat {
    (encode_utf8(s).len() as usize) as nat
}

// ---------------------------------------------------------------------------
/// A `PathTooLong` error for each action (in order) whose target is at
/// least [`MAX_PATH_LENGTH`] bytes long in UTF-8.
pub open spec fn path_too_long_errors(av: Seq<RenameActionView>) -> Seq<ValidationErrorView>
    decreases av.len(),
{
    if av.len() == 0 {
        seq![]
    } else {
        path_too_long_errors(av.drop_last()) + if byte_len(av.last().target)
            >= MAX_PATH_LENGTH {
            seq![
                ValidationErrorView::PathTooLong {
                    action: av.last(),
                    max_length: MAX_PATH_LENGTH as nat,
                    actual_length: byte_len(av.last().target),
                },
            ]
        } else {
            seq![]
        }
    }
}

/// Errors for targets that are too long.
pub fn validate_target_path_too_long(rename_actions: &[RenameAction]) -> (r: Vec<
    ValidationError,
>)
    ensures
        error_views(r@) == path_too_long_errors(action_views(rename_actions@)),
{
    let mut r: Vec<ValidationError> = Vec::new();
    let mut i: usize = 0;
    while i < rename_actions.len()
        invariant
            i <= rename_actions@.len(),
            error_views(r@) == path_too_long_errors(action_views(rename_actions@.take(i as int))),
        decreases rename_actions.len() - i,
    {
        proof {
            lemma_action_views_take(rename_actions@, i as int);
        }
        let len = rename_actions[i].target().len();
        if len >= MAX_PATH_LENGTH {
            let e = ValidationError::PathTooLong {
                action: rename_actions[i].clone(),
                max_length: MAX_PATH_LENGTH,
                actual_length: len,
            };
            proof {
                lemma_error_views_push(r@, e);
            }
            r.push(e);
        }
        i = i + 1;
    }
    assert(rename_actions@.take(rename_actions@.len() as int) =~= rename_actions@);
    r
}

// ---------------------------------------------------------------------------
// Existing targets that a plan frees
// ---------------------------------------------------------------------------
/// Whether an error reports an existing target.
pub open spec fn is_target_exists_error() -> spec_fn(ValidationErrorView) -> bool {
    |e: ValidationErrorView| e is TargetExists
}

/// Whether no error of `s` reports an existing target.
pub open spec fn no_target_exists(s: Seq<ValidationErrorView>) -> bool {
    forall|k: int| 0 <= k < s.len() ==> !(#[trigger] s[k] is TargetExists)
}

proof fn lemma_no_target_exists_add(a: Seq<ValidationErrorView>, b: Seq<ValidationErrorView>)
    requires
        no_target_exists(a),
        no_target_exists(b),
    ensures
        no_target_exists(a + b),
{
    assert forall|k: int| 0 <= k < (a + b).len() implies !(#[trigger] (a + b)[k] is TargetExists) by {
        if k < a.len() {
            assert((a + b)[k] == a[k]);
        } else {
            assert((a + b)[k] == b[k - a.len()]);
        }
    }
}

proof fn lemma_filter_none(s: Seq<ValidationErrorView>)
    requires
        no_target_exists(s),
    ensures
        s.filter(is_target_exists_error()) == Seq::<ValidationErrorView>::empty(),
    decreases s.len(),
{
    reveal(Seq::filter);
    if s.len() > 0 {
        let p = s.drop_last();
        assert forall|k: int| 0 <= k < p.len() implies !(#[trigger] p[k] is TargetExists) by {
            assert(p[k] == s[k]);
        }
        lemma_filter_none(p);
        assert(!(s[s.len() - 1] is TargetExists));
    }
}

proof fn lemma_double_separator_no_target_exists(av: Seq<RenameActionView>, sep: char)
    ensures
        no_target_exists(double_separator_errors(av, sep)),
    decreases av.len(),
{
    if av.len() > 0 {
        lemma_double_separator_no_target_exists(av.drop_last(), sep);
        let tail = if contains_spec(av.last().target, seq![sep, sep]) {
            seq![ValidationErrorView::DoubleSeparators(av.last())]
        } else {
            seq![]
        };
        lemma_no_target_exists_add(double_separator_errors(av.drop_last(), sep), tail);
    }
}

proof fn lemma_case_collision_no_target_exists(gs: Seq<Seq<RenameActionView>>)
    ensures
        no_target_exists(case_collision_errors_of(gs)),
    decreases gs.len(),
{
    if gs.len() > 0 {
        lemma_case_collision_no_target_exists(gs.drop_last());
        let tail = if has_distinct_targets(gs.last()) {
            seq![ValidationErrorView::CaseInsensitiveCollision(gs.last())]
        } else {
            seq![]
        };
        lemma_no_target_exists_add(case_collision_errors_of(gs.drop_last()), tail);
    }
}

proof fn lemma_reserved_of_no_target_exists(a: RenameActionView, comps: Seq<ComponentView>)
    ensures
        no_target_exists(reserved_errors_of(a, comps)),
    decreases comps.len(),
{
    if comps.len() > 0 {
        lemma_reserved_of_no_target_exists(a, comps.drop_last());
        let tail = match comps.last() {
            ComponentView::Normal(name) => if is_windows_reserved_name_spec(name) {
                seq![ValidationErrorView::ReservedName { action: a, component: name }]
            } else {
                seq![]
            },
            _ => seq![],
        };
        lemma_no_target_exists_add(reserved_errors_of(a, comps.drop_last()), tail);
    }
}

proof fn lemma_reserved_no_target_exists(av: Seq<RenameActionView>)
    ensures
        no_target_exists(reserved_name_errors(av)),
    decreases av.len(),
{
    if av.len() > 0 {
        lemma_reserved_no_target_exists(av.drop_last());
        lemma_reserved_of_no_target_exists(av.last(), utf8_components(av.last().target));
        lemma_no_target_exists_add(
            reserved_name_errors(av.drop_last()),
            reserved_errors_of(av.last(), utf8_components(av.last().target)),
        );
    }
}

proof fn lemma_leading_trailing_of_no_target_exists(a: RenameActionView, comps: Seq<ComponentView>)
    ensures
        no_target_exists(leading_trailing_errors_of(a, comps)),
    decreases comps.len(),
{
    if comps.len() > 0 {
        lemma_leading_trailing_of_no_target_exists(a, comps.drop_last());
        let whole = leading_trailing_errors_of(a, comps);
        let init = leading_trailing_errors_of(a, comps.drop_last());
        assert forall|k: int| 0 <= k < whole.len() implies !(#[trigger] whole[k] is TargetExists) by {
            if k < init.len() {
                assert(whole[k] == init[k]);
            }
        }
    }
}

proof fn lemma_leading_trailing_no_target_exists(av: Seq<RenameActionView>)
    ensures
        no_target_exists(leading_trailing_errors(av)),
    decreases av.len(),
{
    if av.len() > 0 {
        lemma_leading_trailing_no_target_exists(av.drop_last());
        lemma_leading_trailing_of_no_target_exists(av.last(), utf8_components(av.last().target));
        lemma_no_target_exists_add(
            leading_trailing_errors(av.drop_last()),
            leading_trailing_errors_of(av.last(), utf8_components(av.last().target)),
        );
    }
}

proof fn lemma_path_too_long_no_target_exists(av: Seq<RenameActionView>)
    ensures
        no_target_exists(path_too_long_errors(av)),
    decreases av.len(),
{
    if av.len() > 0 {
        lemma_path_too_long_no_target_exists(av.drop_last());
        let whole = path_too_long_errors(av);
        let init = path_too_long_errors(av.drop_last());
        assert forall|k: int| 0 <= k < whole.len() implies !(#[trigger] whole[k] is TargetExists) by {
            if k < init.len() {
                assert(whole[k] == init[k]);
            }
        }
    }
}

/// Every error of `target_exists_errors_upto` reports an existing target
/// of a blocking action, and keeping only such errors keeps them all.
proof fn lemma_target_exists_errors_upto(av: Seq<RenameActionView>, exists: Seq<bool>, n: int)
    requires
        0 <= n <= av.len(),
    ensures
        forall|k: int|
            0 <= k < target_exists_errors_upto(av, exists, n).len() ==> exists|i: int|
                0 <= i < n && #[trigger] target_exists_errors_upto(av, exists, n)[k]
                    == ValidationErrorView::TargetExists(av[i]) && target_exists_blocks(
                    av,
                    exists,
                    i,
                ),
        target_exists_errors_upto(av, exists, n).filter(is_target_exists_error())
            == target_exists_errors_upto(av, exists, n),
    decreases n,
{
    reveal(Seq::filter);
    if n > 0 {
        lemma_target_exists_errors_upto(av, exists, n - 1);
        let init = target_exists_errors_upto(av, exists, n - 1);
        let whole = target_exists_errors_upto(av, exists, n);
        assert forall|k: int| 0 <= k < whole.len() implies exists|i: int|
            0 <= i < n && #[trigger] whole[k] == ValidationErrorView::TargetExists(av[i])
                && target_exists_blocks(av, exists, i) by {
            if k < init.len() {
                assert(whole[k] == init[k]);
                let i = choose|i: int|
                    0 <= i < n - 1 && #[trigger] init[k] == ValidationErrorView::TargetExists(av[i])
                        && target_exists_blocks(av, exists, i);
                assert(whole[k] == ValidationErrorView::TargetExists(av[i]));
            } else {
                assert(whole[k] == ValidationErrorView::TargetExists(av[n - 1]));
            }
        }
        if target_exists_blocks(av, exists, n - 1) {
            assert(whole == init.push(ValidationErrorView::TargetExists(av[n - 1])));
            assert(whole.drop_last() == init);
        } else {
            assert(whole == init);
        }
    }
}

/// An existing target is reported only when it blocks the plan: the
/// `TargetExists` errors among all errors of a plan are exactly those of
/// the actions whose target exists, is not their own source, and is not
/// (ignoring case) the source of any action of the plan, in plan order.
/// So a target freed by the plan itself, as in swaps, cycles, chains and
/// case-only renames, is never reported as existing.
pub proof fn lemma_target_exists_only_when_blocking(
    av: Seq<RenameActionView>,
    exists: Seq<bool>,
    sep: char,
)
    ensures
        plan_errors(av, exists, sep).filter(is_target_exists_error()) == target_exists_errors(
            av,
            exists,
        ),
        forall|k: int|
            0 <= k < plan_errors(av, exists, sep).len() && (#[trigger] plan_errors(
                av,
                exists,
                sep,
            )[k]) is TargetExists ==> exists|i: int|
                0 <= i < av.len() && plan_errors(av, exists, sep)[k]
                    == ValidationErrorView::TargetExists(av[i]) && target_exists_blocks(
                    av,
                    exists,
                    i,
                ),
{
    broadcast use Seq::filter_distributes_over_add;

    let d = double_separator_errors(av, sep);
    let c = collision_errors(av);
    let ci = case_insensitive_collision_errors(av);
    let te = target_exists_errors(av, exists);
    let rn = reserved_name_errors(av);
    let lt = leading_trailing_errors(av);
    let pl = path_too_long_errors(av);
    lemma_double_separator_no_target_exists(av, sep);
    assert(no_target_exists(c));
    lemma_case_collision_no_target_exists(duplicate_groups(av, target_case_key()));
    lemma_reserved_no_target_exists(av);
    lemma_leading_trailing_no_target_exists(av);
    lemma_path_too_long_no_target_exists(av);
    lemma_target_exists_errors_upto(av, exists, av.len() as int);
    lemma_no_target_exists_add(d, c);
    lemma_no_target_exists_add(d + c, ci);
    lemma_no_target_exists_add(rn, lt);
    lemma_no_target_exists_add(rn + lt, pl);
    let before = d + c + ci;
    let after = rn + lt + pl;
    assert(plan_errors(av, exists, sep) == before + te + after) by {
        assert(plan_errors(av, exists, sep) =~= before + te + after);
    }
    lemma_filter_none(before);
    lemma_filter_none(after);
    assert((before + te + after).filter(is_target_exists_error()) == before.filter(
        is_target_exists_error(),
    ) + te.filter(is_target_exists_error()) + after.filter(is_target_exists_error()));
    assert(plan_errors(av, exists, sep).filter(is_target_exists_error()) =~= te);
    let all = plan_errors(av, exists, sep);
    assert forall|k: int| 0 <= k < all.len() && (#[trigger] all[k]) is TargetExists implies exists|
        i: int,
    |
        0 <= i < av.len() && all[k] == ValidationErrorView::TargetExists(av[i])
            && target_exists_blocks(av, exists, i) by {
        if k < before.len() {
            assert(all[k] == before[k]);
        } else if k < before.len() + te.len() {
            assert(all[k] == te[k - before.len()]);
            assert(te[k - before.len()] == target_exists_errors_upto(av, exists, av.len() as int)[k
                - before.len()]);
        } else {
            assert(all[k] == after[k - before.len() - te.len()]);
        }
    }
}

} // verus!
