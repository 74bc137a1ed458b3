//! Template frontmatter: declared template arguments and how positional
//! command-line arguments are resolved against them.

use crate::error::{TFMTError, TFMTErrorView};
use crate::sanitize::{remove_forbidden_characters, remove_forbidden_spec, sanitize_path, sanitize_path_spec};
use crate::text::{chars_of, string_from_chars};
use crate::validation::{all_ascii_digits, digits_value, is_ascii_digit};
use vstd::prelude::*;

verus! {

/// The declared type of a template argument.
#[derive(Debug, Clone, Copy, PartialEq, Eq)]
pub enum ArgKind {
    String,
    Int,
    Path,
}

impl ArgKind {
    /// The lowercase name of the kind (`string`, `int` or `path`).
    pub fn as_str(&self) -> (r: &'static str)
        ensures
            *self == ArgKind::String ==> r@ == "string"@,
            *self == ArgKind::Int ==> r@ == "int"@,
            *self == ArgKind::Path ==> r@ == "path"@,
    {
        match self {
            ArgKind::String => "string",
            ArgKind::Int => "int",
            ArgKind::Path => "path",
        }
    }
}

pub open spec fn opt_string_view(o: Option<String>) -> Option<Seq<char>> {
    match o {
        Some(s) => Some(s@),
        None => None,
    }
}

pub fn clone_opt_string(o: &Option<String>) -> (r: Option<String>)
    ensures
        opt_string_view(r) == opt_string_view(*o),
{
    match o {
        Some(s) => Some(s.clone()),
        None => None,
    }
}

/// One declared template argument.
#[derive(Debug)]
pub struct ArgSpec {
    name: String,
    kind: ArgKind,
    required: bool,
    default: Option<String>,
    description: Option<String>,
}

/// Mathematical view of an [`ArgSpec`].
pub struct ArgSpecView {
    pub name: Seq<char>,
    pub kind: ArgKind,
    pub required: bool,
    pub default: Option<Seq<char>>,
    pub description: Option<Seq<char>>,
}

impl View for ArgSpec {
    type V = ArgSpecView;

    closed spec fn view(&self) -> ArgSpecView {
        ArgSpecView {
            name: self.name@,
            kind: self.kind,
            required: self.required,
            default: opt_string_view(self.default),
            description: opt_string_view(self.description),
        }
    }
}

impl Clone for ArgSpec {
    fn clone(&self) -> (r: Self)
        ensures
            r@ == self@,
    {
        ArgSpec {
            name: self.name.clone(),
            kind: self.kind,
            required: self.required,
            default: clone_opt_string(&self.default),
            description: clone_opt_string(&self.description),
        }
    }
}

impl ArgSpec {
    pub fn new(
        name: String,
        kind: ArgKind,
        required: bool,
        default: Option<String>,
        description: Option<String>,
    ) -> (r: Self)
        ensures
            r@ == (ArgSpecView {
                name: name@,
                kind: kind,
                required: required,
                default: opt_string_view(default),
                description: opt_string_view(description),
            }),
    {
        ArgSpec { name, kind, required, default, description }
    }

    pub fn name(&self) -> (r: &str)
        ensures
            r@ == self@.name,
    {
        self.name.as_str()
    }

    pub fn kind(&self) -> (r: ArgKind)
        ensures
            r == self@.kind,
    {
        self.kind
    }

    pub fn required(&self) -> (r: bool)
        ensures
            r == self@.required,
    {
        self.required
    }

    pub fn default(&self) -> (r: Option<&str>)
        ensures
            r matches Some(s) ==> self@.default == Some(s@),
            r is None ==> self@.default is None,
    {
        match &self.default {
            Some(s) => Some(s.as_str()),
            None => None,
        }
    }

    pub fn description(&self) -> (r: Option<&str>)
        ensures
            r matches Some(s) ==> self@.description == Some(s@),
            r is None ==> self@.description is None,
    {
        match &self.description {
            Some(s) => Some(s.as_str()),
            None => None,
        }
    }
}

/// The views of a sequence of argument declarations.
pub open spec fn arg_views(s: Seq<ArgSpec>) -> Seq<ArgSpecView> {
    s.map_values(|a: ArgSpec| a@)
}

fn clone_args(args: &Vec<ArgSpec>) -> (r: Vec<ArgSpec>)
    ensures
        arg_views(r@) == arg_views(args@),
{
    let mut r: Vec<ArgSpec> = Vec::new();
    let mut i: usize = 0;
    while i < args.len()
        invariant
            i <= args.len(),
            r@.len() == i,
            forall|j: int| 0 <= j < i ==> (#[trigger] r@[j])@ == args@[j]@,
        decreases args.len() - i,
    {
        r.push(args[i].clone());
        i = i + 1;
    }
    assert(arg_views(r@) =~= arg_views(args@));
    r
}

/// The frontmatter block of a template.
#[derive(Debug)]
pub struct Frontmatter {
    name: Option<String>,
    description: Option<String>,
    args: Vec<ArgSpec>,
}

/// Mathematical view of a [`Frontmatter`].
pub struct FrontmatterView {
    pub name: Option<Seq<char>>,
    pub description: Option<Seq<char>>,
    pub args: Seq<ArgSpecView>,
}

impl View for Frontmatter {
    type V = FrontmatterView;

    closed spec fn view(&self) -> FrontmatterView {
        FrontmatterView {
            name: opt_string_view(self.name),
            description: opt_string_view(self.description),
            args: arg_views(self.args@),
        }
    }
}

/// The text used for an argument without description.
pub open spec fn describe_spec(description: Option<Seq<char>>) -> Seq<char> {
    match description {
        Some(d) => d,
        None => "(no description provided)"@,
    }
}

/// The argument's description, or a placeholder when it has none.
pub fn describe(description: Option<&str>) -> (r: String)
    ensures
        r@ == describe_spec(match description {
            Some(d) => Some(d@),
            None => None,
        }),
{
    match description {
        Some(d) => d.to_owned(),
        None => "(no description provided)".to_owned(),
    }
}

/// Whether an argument before position `i` has the same name as `args[i]`.
pub open spec fn name_declared_before(args: Seq<ArgSpecView>, i: int) -> bool {
    exists|j: int| 0 <= j < i && #[trigger] args[j].name == args[i].name
}

/// The first position (among the first `n`) whose name was declared before.
pub open spec fn first_duplicate_upto(args: Seq<ArgSpecView>, n: int) -> Option<int>
    decreases n,
{
    if n <= 0 {
        None
    } else {
        match first_duplicate_upto(args, n - 1) {
            Some(i) => Some(i),
            None => if name_declared_before(args, n - 1) {
                Some(n - 1)
            } else {
                None
            },
        }
    }
}

/// A value a template argument resolves to.
#[derive(Debug)]
pub enum ArgValue {
    Undefined,
    Int(i64),
    Str(String),
}

/// Mathematical view of an [`ArgValue`].
pub enum ArgValueView {
    Undefined,
    Int(int),
    Str(Seq<char>),
}

impl View for ArgValue {
    type V = ArgValueView;

    open spec fn view(&self) -> ArgValueView {
        match self {
            ArgValue::Undefined => ArgValueView::Undefined,
            ArgValue::Int(i) => ArgValueView::Int(*i as int),
            ArgValue::Str(s) => ArgValueView::Str(s@),
        }
    }
}

impl Clone for ArgValue {
    fn clone(&self) -> (r: Self)
        ensures
            r@ == self@,
    {
        match self {
            ArgValue::Undefined => ArgValue::Undefined,
            ArgValue::Int(i) => ArgValue::Int(*i),
            ArgValue::Str(s) => ArgValue::Str(s.clone()),
        }
    }
}

pub open spec fn value_views(s: Seq<ArgValue>) -> Seq<ArgValueView> {
    s.map_values(|v: ArgValue| v@)
}

fn clone_values(v: &Vec<ArgValue>) -> (r: Vec<ArgValue>)
    ensures
        value_views(r@) == value_views(v@),
{
    let mut r: Vec<ArgValue> = Vec::new();
    let mut i: usize = 0;
    while i < v.len()
        invariant
            i <= v.len(),
            r@.len() == i,
            forall|j: int| 0 <= j < i ==> (#[trigger] r@[j])@ == v@[j]@,
        decreases v.len() - i,
    {
        r.push(v[i].clone());
        i = i + 1;
    }
    assert(value_views(r@) =~= value_views(v@));
    r
}

// ---------------------------------------------------------------------------
// Integer arguments
// ---------------------------------------------------------------------------
/// What std's `str::parse::<i64>` returns: an optional sign, then one or
/// more ASCII digits denoting a value within the range of `i64`.
pub open spec fn parse_i64_spec(s: Seq<char>) -> Option<int> {
    let signed = s.len() > 0 && (s[0] == '+' || s[0] == '-');
    let d = if signed {
        s.drop_first()
    } else {
        s
    };
    let v = if s.len() > 0 && s[0] == '-' {
        -(digits_value(d) as int)
    } else {
        digits_value(d) as int
    };
    if d.len() > 0 && all_ascii_digits(d) && i64::MIN <= v && v <= i64::MAX {
        Some(v)
    } else {
        None
    }
}

proof fn lemma_digits_value_mono(d: Seq<char>, k: int)
    requires
        0 <= k <= d.len(),
        all_ascii_digits(d),
    ensures
        digits_value(d.take(k)) <= digits_value(d),
    decreases d.len() - k,
{
    if k < d.len() {
        lemma_digits_value_mono(d, k + 1);
        assert(d.take(k + 1).drop_last() =~= d.take(k));
        assert(is_ascii_digit(d[k]));
        assert(d.take(k + 1).last() == d[k]);
    } else {
        assert(d.take(k) =~= d);
    }
}

/// Parses a decimal `i64` as std's `str::parse::<i64>` does.
pub fn parse_i64(s: &str) -> (r: Option<i64>)
    ensures
        r matches Some(v) ==> parse_i64_spec(s@) == Some(v as int),
        r is None ==> parse_i64_spec(s@) is None,
{
    let chars = chars_of(s);
    let mut start: usize = 0;
    let neg = chars.len() > 0 && chars[0] == '-';
    if chars.len() > 0 && (chars[0] == '+' || chars[0] == '-') {
        start = 1;
    }
    let ghost d = chars@.skip(start as int);
    assert(d =~= if chars@.len() > 0 && (chars@[0] == '+' || chars@[0] == '-') {
        chars@.drop_first()
    } else {
        chars@
    });
    if start >= chars.len() {
        return None;
    }
    let mut acc: u64 = 0;
    let mut k = start;
    while k < chars.len()
        invariant
            chars@ == s@,
            start <= k <= chars@.len(),
            start < chars@.len(),
            start == 0 || start == 1,
            d == chars@.skip(start as int),
            d == (if chars@.len() > 0 && (chars@[0] == '+' || chars@[0] == '-') {
                chars@.drop_first()
            } else {
                chars@
            }),
            forall|m: int| start <= m < k ==> is_ascii_digit(#[trigger] chars@[m]),
            acc as nat == digits_value(d.take(k - start)),
        decreases chars.len() - k,
    {
        let c = chars[k];
        assert(d[k - start] == c);
        if !('0' <= c && c <= '9') {
            assert(!is_ascii_digit(d[k - start]));
            assert(!all_ascii_digits(d));
            return None;
        }
        assert(d.take(k - start + 1).drop_last() =~= d.take(k - start));
        assert(d.take(k - start + 1).last() == c);
        assert(digits_value(d.take(k - start + 1)) == acc * 10 + ((c as nat) - 48));
        let digit = (c as u32 - 48) as u64;
        match acc.checked_mul(10) {
            Some(m) => match m.checked_add(digit) {
                Some(n) => {
                    acc = n;
                },
                None => {
                    proof {
                        if all_ascii_digits(d) {
                            lemma_digits_value_mono(d, k - start + 1);
                        }
                    }
                    return None;
                },
            },
            None => {
                proof {
                    if all_ascii_digits(d) {
                        lemma_digits_value_mono(d, k - start + 1);
                    }
                }
                return None;
            },
        }
        k = k + 1;
    }
    assert(d.take(d.len() as int) =~= d);
    assert forall|m2: int| 0 <= m2 < d.len() implies is_ascii_digit(#[trigger] d[m2]) by {
        assert(d[m2] == chars@[start + m2]);
    }
    if neg {
        if acc <= 9223372036854775807 {
            Some(-(acc as i64))
        } else if acc == 9223372036854775808 {
            Some(i64::MIN)
        } else {
            None
        }
    } else {
        if acc <= 9223372036854775807 {
            Some(acc as i64)
        } else {
            None
        }
    }
}

// ---------------------------------------------------------------------------
// Resolving arguments
// ---------------------------------------------------------------------------
/// The value of argument `spec` given the raw text `raw`.
pub open spec fn coerce_spec(spec: ArgSpecView, label: Seq<char>, raw: Seq<char>) -> Result<
    ArgValueView,
    TFMTErrorView,
> {
    match spec.kind {
        ArgKind::Int => match parse_i64_spec(raw) {
            Some(v) => Ok(ArgValueView::Int(v)),
            None => Err(
                TFMTErrorView::InvalidArgumentValue(
                    label,
                    spec.name,
                    describe_spec(spec.description),
                    raw,
                ),
            ),
        },
        ArgKind::String => Ok(ArgValueView::Str(remove_forbidden_spec(raw))),
        ArgKind::Path => Ok(ArgValueView::Str(sanitize_path_spec(raw))),
    }
}

impl ArgSpec {
    /// Converts raw argument text into this argument's value: integers are
    /// parsed, strings sanitized, paths normalized.
    pub fn coerce(&self, label: &str, raw: &str) -> (r: Result<ArgValue, TFMTError>)
        ensures
            match r {
                Ok(v) => coerce_spec(self@, label@, raw@) == Ok::<ArgValueView, TFMTErrorView>(v@),
                Err(e) => coerce_spec(self@, label@, raw@) == Err::<ArgValueView, TFMTErrorView>(
                    e@,
                ),
            },
    {
        match self.kind {
            ArgKind::Int => match parse_i64(raw) {
                Some(v) => Ok(ArgValue::Int(v)),
                None => Err(
                    TFMTError::InvalidArgumentValue(
                        label.to_owned(),
                        self.name.clone(),
                        describe(self.description()),
                        raw.to_owned(),
                    ),
                ),
            },
            ArgKind::String => Ok(ArgValue::Str(remove_forbidden_characters(raw))),
            ArgKind::Path => Ok(ArgValue::Str(sanitize_path(raw))),
        }
    }
}

/// The value of the argument at position `i`: the positional argument if
/// one was given, else the declared default; a missing required argument
/// is an error and a missing optional one is undefined.
pub open spec fn resolve_value(
    args: Seq<ArgSpecView>,
    label: Seq<char>,
    pos: Seq<Seq<char>>,
    i: int,
) -> Result<ArgValueView, TFMTErrorView> {
    let spec = args[i];
    let raw = if i < pos.len() {
        Some(pos[i])
    } else {
        spec.default
    };
    match raw {
        Some(r) => coerce_spec(spec, label, r),
        None => if spec.required {
            Err(
                TFMTErrorView::MissingRequiredArgument(
                    label,
                    spec.name,
                    describe_spec(spec.description),
                ),
            )
        } else {
            Ok(ArgValueView::Undefined)
        },
    }
}

/// The values of the first `n` arguments, or the first error.
pub open spec fn resolve_upto(args: Seq<ArgSpecView>, label: Seq<char>, pos: Seq<Seq<char>>, n: int) -> Result<
    Seq<ArgValueView>,
    TFMTErrorView,
>
    decreases n,
{
    if n <= 0 {
        Ok(seq![])
    } else {
        match resolve_upto(args, label, pos, n - 1) {
            Err(e) => Err(e),
            Ok(vs) => match resolve_value(args, label, pos, n - 1) {
                Err(e) => Err(e),
                Ok(v) => Ok(vs.push(v)),
            },
        }
    }
}

/// The resolved values of all declared arguments: too many positional
/// arguments are an error when arguments are declared.
pub open spec fn resolve_spec(args: Seq<ArgSpecView>, label: Seq<char>, pos: Seq<Seq<char>>) -> Result<
    Seq<ArgValueView>,
    TFMTErrorView,
> {
    if args.len() > 0 && pos.len() > args.len() {
        Err(TFMTErrorView::TooManyArguments(label, args.len(), pos.len()))
    } else {
        resolve_upto(args, label, pos, args.len() as int)
    }
}

proof fn lemma_resolve_upto_values(
    args: Seq<ArgSpecView>,
    label: Seq<char>,
    pos: Seq<Seq<char>>,
    n: int,
    vals: Seq<ArgValueView>,
)
    requires
        0 <= n,
        resolve_upto(args, label, pos, n) == Ok::<Seq<ArgValueView>, TFMTErrorView>(vals),
    ensures
        vals.len() == n,
        forall|i: int|
            0 <= i < n ==> resolve_value(args, label, pos, i) == Ok::<ArgValueView, TFMTErrorView>(
                #[trigger] vals[i],
            ),
    decreases n,
{
    if n > 0 {
        let prev = resolve_upto(args, label, pos, n - 1)->Ok_0;
        lemma_resolve_upto_values(args, label, pos, n - 1, prev);
        assert(vals == prev.push(resolve_value(args, label, pos, n - 1)->Ok_0));
        assert forall|i: int| 0 <= i < n implies resolve_value(args, label, pos, i) == Ok::<
            ArgValueView,
            TFMTErrorView,
        >(#[trigger] vals[i]) by {
            if i < n - 1 {
                assert(vals[i] == prev[i]);
            }
        }
    }
}

/// Where each resolved value comes from: every declared argument gets a
/// value; a positional argument given for it is taken (coerced to its
/// kind) even when a default is declared; the default is taken only when
/// no positional argument is given for it; and an argument with neither is
/// undefined, which only an optional argument may be.
pub proof fn lemma_positional_before_default(
    args: Seq<ArgSpecView>,
    label: Seq<char>,
    pos: Seq<Seq<char>>,
    vals: Seq<ArgValueView>,
)
    requires
        resolve_spec(args, label, pos) == Ok::<Seq<ArgValueView>, TFMTErrorView>(vals),
    ensures
        vals.len() == args.len(),
        forall|i: int|
            0 <= i < args.len() && i < pos.len() ==> coerce_spec(args[i], label, pos[i]) == Ok::<
                ArgValueView,
                TFMTErrorView,
            >(#[trigger] vals[i]),
        forall|i: int|
            0 <= i < args.len() && pos.len() <= i && args[i].default is Some ==> coerce_spec(
                args[i],
                label,
                args[i].default->0,
            ) == Ok::<ArgValueView, TFMTErrorView>(#[trigger] vals[i]),
        forall|i: int|
            0 <= i < args.len() && pos.len() <= i && args[i].default is None ==> !args[i].required
                && #[trigger] vals[i] == ArgValueView::Undefined,
{
    lemma_resolve_upto_values(args, label, pos, args.len() as int, vals);
}

/// Arguments resolved against a frontmatter (or passed through raw).
#[derive(Debug)]
pub struct ResolvedArgs {
    named: Vec<(String, ArgValue)>,
    positional: Vec<ArgValue>,
}

/// Mathematical view of [`ResolvedArgs`].
pub struct ResolvedArgsView {
    pub named: Seq<(Seq<char>, ArgValueView)>,
    pub positional: Seq<ArgValueView>,
}

pub open spec fn named_views(s: Seq<(String, ArgValue)>) -> Seq<(Seq<char>, ArgValueView)> {
    s.map_values(|p: (String, ArgValue)| (p.0@, p.1@))
}

impl View for ResolvedArgs {
    type V = ResolvedArgsView;

    closed spec fn view(&self) -> ResolvedArgsView {
        ResolvedArgsView { named: named_views(self.named@), positional: value_views(self.positional@) }
    }
}

/// The value bound to `name` (the last binding wins).
pub open spec fn named_lookup(named: Seq<(Seq<char>, ArgValueView)>, name: Seq<char>) -> Option<
    ArgValueView,
>
    decreases named.len(),
{
    if named.len() == 0 {
        None
    } else if named.last().0 == name {
        Some(named.last().1)
    } else {
        named_lookup(named.drop_last(), name)
    }
}

/// Each declared name paired with its value.
pub open spec fn zip_names(args: Seq<ArgSpecView>, values: Seq<ArgValueView>) -> Seq<
    (Seq<char>, ArgValueView),
> {
    Seq::new(values.len(), |i: int| (args[i].name, values[i]))
}

impl Clone for ResolvedArgs {
    fn clone(&self) -> (r: Self)
        ensures
            r@ == self@,
    {
        let mut named: Vec<(String, ArgValue)> = Vec::new();
        let mut i: usize = 0;
        while i < self.named.len()
            invariant
                i <= self.named@.len(),
                named@.len() == i,
                forall|j: int|
                    0 <= j < i ==> (#[trigger] named@[j]).0@ == self.named@[j].0@ && named@[j].1@
                        == self.named@[j].1@,
            decreases self.named.len() - i,
        {
            let (n, v) = &self.named[i];
            named.push((n.clone(), v.clone()));
            i = i + 1;
        }
        let r = ResolvedArgs { named, positional: clone_values(&self.positional) };
        assert(named_views(r.named@) =~= named_views(self.named@));
        r
    }
}

impl ResolvedArgs {
    /// No named arguments and no positional ones.
    pub fn empty() -> (r: Self)
        ensures
            r@.named.len() == 0,
            r@.positional.len() == 0,
    {
        let r = ResolvedArgs { named: Vec::new(), positional: Vec::new() };
        assert(named_views(r.named@) =~= Seq::empty());
        assert(value_views(r.positional@) =~= Seq::empty());
        r
    }

    /// The positional arguments passed through unchanged (no frontmatter).
    pub fn raw(arguments: Vec<String>) -> (r: Self)
        ensures
            r@.named.len() == 0,
            r@.positional == arguments@.map_values(|s: String| ArgValueView::Str(s@)),
    {
        let ghost args = arguments@;
        let mut positional: Vec<ArgValue> = Vec::new();
        let mut i: usize = 0;
        while i < arguments.len()
            invariant
                i <= arguments.len(),
                arguments@ == args,
                positional@.len() == i,
                forall|j: int|
                    0 <= j < i ==> (#[trigger] positional@[j])@ == ArgValueView::Str(args[j]@),
            decreases arguments.len() - i,
        {
            positional.push(ArgValue::Str(arguments[i].clone()));
            i = i + 1;
        }
        let r = ResolvedArgs { named: Vec::new(), positional };
        assert(named_views(r.named@) =~= Seq::empty());
        assert(value_views(r.positional@) =~= args.map_values(|s: String| ArgValueView::Str(s@)));
        r
    }

    /// The value bound to `name`, if any.
    pub fn get_named(&self, name: &str) -> (r: Option<ArgValue>)
        ensures
            r matches Some(v) ==> named_lookup(self@.named, name@) == Some(v@),
            r is None ==> named_lookup(self@.named, name@) is None,
    {
        let ghost nv = named_views(self.named@);
        let target = chars_of(name);
        let mut i = self.named.len();
        assert(nv.take(i as int) =~= nv);
        while i > 0
            invariant
                i <= self.named@.len(),
                nv == named_views(self.named@),
                target@ == name@,
                named_lookup(nv, name@) == named_lookup(nv.take(i as int), name@),
            decreases i,
        {
            let (n, v) = &self.named[i - 1];
            let nc = chars_of(n.as_str());
            assert(nv.take(i as int).last() == (n@, v@));
            assert(nv.take(i as int).drop_last() =~= nv.take(i - 1));
            if crate::text::chars_eq(&nc, &target) {
                return Some(v.clone());
            }
            i = i - 1;
        }
        assert(nv.take(0) =~= Seq::<(Seq<char>, ArgValueView)>::empty());
        None
    }

    /// The positional values.
    pub fn positional(&self) -> (r: Vec<ArgValue>)
        ensures
            value_views(r@) == self@.positional,
    {
        clone_values(&self.positional)
    }
}

impl Frontmatter {
    pub fn new(name: Option<String>, description: Option<String>, args: Vec<ArgSpec>) -> (r: Self)
        ensures
            r@ == (FrontmatterView {
                name: opt_string_view(name),
                description: opt_string_view(description),
                args: arg_views(args@),
            }),
    {
        Frontmatter { name, description, args }
    }

    pub fn name(&self) -> (r: Option<&str>)
        ensures
            r matches Some(s) ==> self@.name == Some(s@),
            r is None ==> self@.name is None,
    {
        match &self.name {
            Some(s) => Some(s.as_str()),
            None => None,
        }
    }

    pub fn description(&self) -> (r: Option<&str>)
        ensures
            r matches Some(s) ==> self@.description == Some(s@),
            r is None ==> self@.description is None,
    {
        match &self.description {
            Some(s) => Some(s.as_str()),
            None => None,
        }
    }

    pub fn args(&self) -> (r: &[ArgSpec])
        ensures
            arg_views(r@) == self@.args,
    {
        self.args.as_slice()
    }

    /// A copy of the declared arguments.
    pub fn args_vec(&self) -> (r: Vec<ArgSpec>)
        ensures
            arg_views(r@) == self@.args,
    {
        clone_args(&self.args)
    }

    /// Rejects a frontmatter that declares two arguments with the same name:
    /// the error names the first argument whose name was declared before.
    pub fn check_argument_names(&self, label: &str) -> (r: Result<(), TFMTError>)
        ensures
            match first_duplicate_upto(self@.args, self@.args.len() as int) {
                None => r is Ok,
                Some(i) => r matches Err(e) && e@ == TFMTErrorView::DuplicateArgumentName(
                    label@,
                    self@.args[i].name,
                ),
            },
    {
        let ghost av = arg_views(self.args@);
        let n = self.args.len();
        let mut i: usize = 0;
        while i < n
            invariant
                n == self.args@.len(),
                av == arg_views(self.args@),
                av == self@.args,
                i <= n,
                first_duplicate_upto(av, i as int) is None,
            decreases n - i,
        {
            let name_i = chars_of(self.args[i].name());
            assert(av[i as int] == self.args@[i as int]@);
            let mut j: usize = 0;
            while j < i
                invariant
                    n == self.args@.len(),
                    av == arg_views(self.args@),
                    av == self@.args,
                    j <= i < n,
                    first_duplicate_upto(av, i as int) is None,
                    name_i@ == av[i as int].name,
                    forall|k: int| 0 <= k < j ==> #[trigger] av[k].name != av[i as int].name,
                decreases i - j,
            {
                let name_j = chars_of(self.args[j].name());
                assert(av[j as int] == self.args@[j as int]@);
                if crate::text::chars_eq(&name_i, &name_j) {
                    assert(av[j as int].name == av[i as int].name);
                    assert(name_declared_before(av, i as int));
                    assert(first_duplicate_upto(av, i + 1) == Some(i as int));
                    proof {
                        lemma_first_duplicate_stable(av, i + 1, n as int);
                    }
                    return Err(
                        TFMTError::DuplicateArgumentName(label.to_owned(), self.args[i].name.clone()),
                    );
                }
                j = j + 1;
            }
            assert(!name_declared_before(av, i as int));
            i = i + 1;
        }
        Ok(())
    }

    /// Resolves positional arguments against the declared arguments.
    pub fn resolve(&self, label: &str, positional: &[String]) -> (r: Result<ResolvedArgs, TFMTError>)
        ensures
            match r {
                Ok(ra) => resolve_spec(self@.args, label@, positional@.map_values(|s: String| s@))
                    == Ok::<Seq<ArgValueView>, TFMTErrorView>(ra@.positional) && ra@.named
                    == zip_names(self@.args, ra@.positional),
                Err(e) => resolve_spec(self@.args, label@, positional@.map_values(|s: String| s@))
                    == Err::<Seq<ArgValueView>, TFMTErrorView>(e@),
            },
    {
        let ghost av = arg_views(self.args@);
        let ghost pos = positional@.map_values(|s: String| s@);
        if self.args.len() > 0 && positional.len() > self.args.len() {
            return Err(
                TFMTError::TooManyArguments(label.to_owned(), self.args.len(), positional.len()),
            );
        }
        let mut named: Vec<(String, ArgValue)> = Vec::new();
        let mut ordered: Vec<ArgValue> = Vec::new();
        let n = self.args.len();
        assert(value_views(ordered@) =~= Seq::<ArgValueView>::empty());
        assert(named_views(named@) =~= zip_names(av, value_views(ordered@)));
        let mut i: usize = 0;
        while i < n
            invariant
                n == self.args@.len(),
                av == arg_views(self.args@),
                av == self@.args,
                pos == positional@.map_values(|s: String| s@),
                pos.len() == positional@.len(),
                !(n > 0 && positional@.len() > n),
                i <= n,
                ordered@.len() == i,
                named@.len() == i,
                resolve_upto(av, label@, pos, i as int) == Ok::<Seq<ArgValueView>, TFMTErrorView>(
                    value_views(ordered@),
                ),
                named_views(named@) == zip_names(av, value_views(ordered@)),
            decreases n - i,
        {
            let spec = &self.args[i];
            assert(av[i as int] == spec@);
            let raw: Option<String> = if i < positional.len() {
                assert(pos[i as int] == positional@[i as int]@);
                Some(positional[i].clone())
            } else {
                clone_opt_string(&spec.default)
            };
            assert(opt_string_view(raw) == (if i < pos.len() {
                Some(pos[i as int])
            } else {
                av[i as int].default
            }));
            let value = match raw {
                Some(r) => match spec.coerce(label, r.as_str()) {
                    Ok(v) => v,
                    Err(e) => {
                        assert(resolve_value(av, label@, pos, i as int) == Err::<
                            ArgValueView,
                            TFMTErrorView,
                        >(e@));
                        assert(resolve_upto(av, label@, pos, i + 1) == Err::<
                            Seq<ArgValueView>,
                            TFMTErrorView,
                        >(e@));
                        proof {
                            lemma_resolve_error_stable(av, label@, pos, i + 1, n as int);
                        }
                        return Err(e);
                    },
                },
                None => {
                    if spec.required {
                        let e = TFMTError::MissingRequiredArgument(
                            label.to_owned(),
                            spec.name.clone(),
                            describe(spec.description()),
                        );
                        assert(resolve_value(av, label@, pos, i as int) == Err::<
                            ArgValueView,
                            TFMTErrorView,
                        >(e@));
                        assert(resolve_upto(av, label@, pos, i + 1) == Err::<
                            Seq<ArgValueView>,
                            TFMTErrorView,
                        >(e@));
                        proof {
                            lemma_resolve_error_stable(av, label@, pos, i + 1, n as int);
                        }
                        return Err(e);
                    }
                    ArgValue::Undefined
                },
            };
            assert(resolve_value(av, label@, pos, i as int) == Ok::<ArgValueView, TFMTErrorView>(
                value@,
            ));
            let ghost prev = value_views(ordered@);
            let ghost prev_named = named_views(named@);
            named.push((spec.name.clone(), value.clone()));
            ordered.push(value);
            assert(value_views(ordered@) =~= prev.push(value@));
            assert(named_views(named@) =~= prev_named.push((av[i as int].name, value@)));
            assert forall|k: int| 0 <= k < i + 1 implies #[trigger] named_views(named@)[k] == zip_names(
                av,
                value_views(ordered@),
            )[k] by {
                if k < i {
                    assert(prev_named[k] == zip_names(av, prev)[k]);
                }
            }
            assert(named_views(named@) =~= zip_names(av, value_views(ordered@)));
            i = i + 1;
        }
        Ok(ResolvedArgs { named, positional: ordered })
    }
}

proof fn lemma_first_duplicate_stable(args: Seq<ArgSpecView>, m: int, n: int)
    requires
        0 <= m <= n,
        first_duplicate_upto(args, m) is Some,
    ensures
        first_duplicate_upto(args, n) == first_duplicate_upto(args, m),
    decreases n - m,
{
    if m < n {
        lemma_first_duplicate_stable(args, m, n - 1);
    }
}

proof fn lemma_resolve_error_stable(
    args: Seq<ArgSpecView>,
    label: Seq<char>,
    pos: Seq<Seq<char>>,
    m: int,
    n: int,
)
    requires
        0 <= m <= n,
        resolve_upto(args, label, pos, m) is Err,
    ensures
        resolve_upto(args, label, pos, n) == resolve_upto(args, label, pos, m),
    decreases n - m,
{
    if m < n {
        lemma_resolve_error_stable(args, label, pos, m, n - 1);
    }
}

} // verus!
