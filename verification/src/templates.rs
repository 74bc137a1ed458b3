//! Template sources: the `+++` frontmatter fences, the legacy leading
//! description comment, which files are templates, and the template value
//! that carries the resolved arguments.

use crate::error::{TFMTError, TFMTErrorView};
use crate::frontmatter::{
    arg_views, clone_opt_string, opt_string_view, resolve_spec, zip_names, ArgSpec, ArgSpecView,
    ArgValueView, Frontmatter, ResolvedArgs, ResolvedArgsView,
};
use crate::paths::{extension, utf8_extension};
use crate::text::{
    chars_eq, chars_of, slice_chars, starts_with_spec, string_from_chars, trim_chars, trim_spec,
};
use vstd::prelude::*;

verus! {

// ---------------------------------------------------------------------------
// Frontmatter fences
// ---------------------------------------------------------------------------
/// A space or a tab.
pub open spec fn is_blank(c: char) -> bool {
    c == ' ' || c == '\t'
}

/// The first position at or after `p` that does not hold a space or tab.
pub open spec fn skip_blanks(s: Seq<char>, p: int) -> int
    decreases s.len() - p,
{
    if 0 <= p < s.len() && is_blank(s[p]) {
        skip_blanks(s, p + 1)
    } else {
        p
    }
}

/// Where the opening fence (`+++`, blanks, a line break) at the start of
/// `s` ends.
pub open spec fn opening_fence_end(s: Seq<char>) -> Option<int> {
    if starts_with_spec(s, "+++"@) {
        let q = skip_blanks(s, 3);
        if q + 1 < s.len() && s[q] == '\r' && s[q + 1] == '\n' {
            Some(q + 2)
        } else if q < s.len() && s[q] == '\n' {
            Some(q + 1)
        } else {
            None
        }
    } else {
        None
    }
}

/// Where a closing fence line (`+++`, blanks, an optional carriage return,
/// then a newline or the end of the text) that starts at `i` ends.
pub open spec fn closing_fence_end(s: Seq<char>, i: int) -> Option<int> {
    if 0 <= i && i + 3 <= s.len() && s[i] == '+' && s[i + 1] == '+' && s[i + 2] == '+' && (i == 0
        || s[i - 1] == '\n') {
        let q = skip_blanks(s, i + 3);
        if q < s.len() && s[q] == '\r' && (q + 1 == s.len() || s[q + 1] == '\n') {
            Some(q + 1)
        } else if q == s.len() || s[q] == '\n' {
            Some(q)
        } else {
            None
        }
    } else {
        None
    }
}

/// The first closing fence at or after `from`: where it starts and ends.
pub open spec fn find_closing_fence(s: Seq<char>, from: int) -> Option<(int, int)>
    decreases s.len() - from,
{
    if from < 0 || from > s.len() {
        None
    } else {
        match closing_fence_end(s, from) {
            Some(e) => Some((from, e)),
            None => if from < s.len() {
                find_closing_fence(s, from + 1)
            } else {
                None
            },
        }
    }
}

/// Position `p`, moved past one line break (`\r\n` or `\n`) if one is there.
pub open spec fn skip_line_break(s: Seq<char>, p: int) -> int {
    if p + 1 < s.len() && s[p] == '\r' && s[p + 1] == '\n' {
        p + 2
    } else if p < s.len() && s[p] == '\n' {
        p + 1
    } else {
        p
    }
}

/// How a template source splits: `Some(None)` when it has no frontmatter,
/// `Some(Some((toml, body)))` when it has a complete block, `None` when the
/// block is not terminated.
pub open spec fn split_frontmatter_spec(s: Seq<char>) -> Option<Option<(Seq<char>, Seq<char>)>> {
    if !starts_with_spec(s, "+++"@) {
        Some(None)
    } else {
        match opening_fence_end(s) {
            None => None,
            Some(o) => match find_closing_fence(s, o) {
                None => None,
                Some((c0, c1)) => Some(Some((s.subrange(o, c0), s.skip(skip_line_break(s, c1))))),
            },
        }
    }
}

/// A template source split into its body and its frontmatter text.
#[derive(Debug)]
pub struct SplitSource {
    pub body: String,
    pub frontmatter_text: Option<String>,
}

fn skip_blanks_exec(s: &Vec<char>, p: usize) -> (q: usize)
    requires
        p <= s@.len(),
    ensures
        q as int == skip_blanks(s@, p as int),
        p <= q <= s@.len(),
{
    let mut q = p;
    while q < s.len() && (s[q] == ' ' || s[q] == '\t')
        invariant
            p <= q <= s@.len(),
            skip_blanks(s@, p as int) == skip_blanks(s@, q as int),
        decreases s.len() - q,
    {
        q = q + 1;
    }
    q
}

fn closing_fence_at(s: &Vec<char>, i: usize) -> (r: Option<usize>)
    requires
        i <= s@.len(),
    ensures
        match closing_fence_end(s@, i as int) {
            Some(e) => r == Some(e as usize) && i + 3 <= e <= s@.len(),
            None => r is None,
        },
{
    if s.len() - i < 3 || s[i] != '+' || s[i + 1] != '+' || s[i + 2] != '+' {
        return None;
    }
    if i > 0 && s[i - 1] != '\n' {
        return None;
    }
    let q = skip_blanks_exec(s, i + 3);
    if q < s.len() && s[q] == '\r' && (q + 1 == s.len() || s[q + 1] == '\n') {
        Some(q + 1)
    } else if q == s.len() || s[q] == '\n' {
        Some(q)
    } else {
        None
    }
}

/// Splits a template source into its `+++`-fenced frontmatter text and its
/// body. A source that does not start with `+++` has no frontmatter; one
/// that does must open with a fence line and contain a closing fence line,
/// else it is an `UnterminatedFrontmatter` error. One line break after the
/// closing fence is not part of the body.
pub fn split_frontmatter_text(label: &str, source: &str) -> (r: Result<SplitSource, TFMTError>)
    ensures
        match split_frontmatter_spec(source@) {
            None => r matches Err(e) && e@ == TFMTErrorView::UnterminatedFrontmatter(label@),
            Some(None) => r matches Ok(sp) && sp.body@ == source@ && sp.frontmatter_text is None,
            Some(Some((t, b))) => r matches Ok(sp) && sp.body@ == b && (
            sp.frontmatter_text matches Some(ft) && ft@ == t),
        },
{
    let s = chars_of(source);
    proof {
        reveal_strlit("+++");
    }
    let starts = s.len() >= 3 && s[0] == '+' && s[1] == '+' && s[2] == '+';
    assert(starts == starts_with_spec(s@, "+++"@)) by {
        if s@.len() >= 3 {
            if starts {
                assert(s@.take(3) =~= "+++"@);
            } else {
                assert(s@.take(3)[0] == s@[0]);
                assert(s@.take(3)[1] == s@[1]);
                assert(s@.take(3)[2] == s@[2]);
            }
        }
    }
    if !starts {
        return Ok(SplitSource { body: source.to_owned(), frontmatter_text: None });
    }
    let q = skip_blanks_exec(&s, 3);
    let open_end: usize;
    if q < s.len() && s.len() - q > 1 && s[q] == '\r' && s[q + 1] == '\n' {
        open_end = q + 2;
    } else if q < s.len() && s[q] == '\n' {
        open_end = q + 1;
    } else {
        return Err(TFMTError::UnterminatedFrontmatter(label.to_owned()));
    }
    let mut i = open_end;
    let mut found: Option<(usize, usize)> = None;
    while found.is_none() && i < s.len()
        invariant
            open_end <= i <= s@.len(),
            found matches Some(f) ==> find_closing_fence(s@, open_end as int) == Some(
                (f.0 as int, f.1 as int),
            ) && f.0 <= f.1 <= s@.len() && open_end <= f.0,
            found is None ==> find_closing_fence(s@, open_end as int) == find_closing_fence(
                s@,
                i as int,
            ),
        decreases s@.len() - i + (if found is None {
            1int
        } else {
            0int
        }),
    {
        match closing_fence_at(&s, i) {
            Some(e) => {
                assert(find_closing_fence(s@, i as int) == Some((i as int, e as int)));
                found = Some((i, e));
            },
            None => {
                i = i + 1;
            },
        }
    }
    if found.is_none() {
        assert(find_closing_fence(s@, i as int) is None);
    }
    match found {
        None => Err(TFMTError::UnterminatedFrontmatter(label.to_owned())),
        Some((c0, c1)) => {
            let text = slice_chars(&s, open_end, c0);
            let mut b = c1;
            if c1 < s.len() && s.len() - c1 > 1 && s[c1] == '\r' && s[c1 + 1] == '\n' {
                b = c1 + 2;
            } else if c1 < s.len() && s[c1] == '\n' {
                b = c1 + 1;
            }
            let body = slice_chars(&s, b, s.len());
            assert(body@ =~= s@.skip(b as int));
            Ok(
                SplitSource {
                    body: string_from_chars(body.as_slice()),
                    frontmatter_text: Some(string_from_chars(text.as_slice())),
                },
            )
        },
    }
}


// ---------------------------------------------------------------------------
// Indexed arguments
// ---------------------------------------------------------------------------
/// Name for what the `regex` crate answers when `pattern` is compiled and
/// searched for anywhere in `text`: `None` when the pattern does not
/// compile, else whether it matches.
pub uninterp spec fn regex_search(pattern: Seq<char>, text: Seq<char>) -> Option<bool>;

/// `regex::Regex::new(pattern)` followed by `Regex::is_match(text)`.
#[verifier::external_body]
fn regex_is_match(pattern: &str, text: &str) -> (r: Option<bool>)
    ensures
        r == regex_search(pattern@, text@),
{
    match regex::Regex::new(pattern) {
        Ok(re) => Some(re.is_match(text)),
        Err(_) => None,
    }
}

/// The pattern of positional argument indexing: the word `args`, optional
/// whitespace, then `[`.
pub open spec fn indexed_args_pattern() -> Seq<char> {
    "\\bargs\\s*\\["@
}

/// Whether the body indexes the positional `args` (`args[0]`).
pub fn body_uses_indexed_args(body: &str) -> (r: bool)
    ensures
        r == (regex_search(indexed_args_pattern(), body@) == Some(true)),
{
    match regex_is_match("\\bargs\\s*\\[", body) {
        Some(b) => b,
        None => false,
    }
}

/// A template with frontmatter must use its declared arguments by name.
pub fn check_frontmatter_body(label: &str, body: &str) -> (r: Result<(), TFMTError>)
    ensures
        regex_search(indexed_args_pattern(), body@) == Some(true) ==> (r matches Err(e) && e@
            == TFMTErrorView::IndexedArgsWithFrontmatter(label@)),
        regex_search(indexed_args_pattern(), body@) != Some(true) ==> r is Ok,
{
    if body_uses_indexed_args(body) {
        Err(TFMTError::IndexedArgsWithFrontmatter(label.to_owned()))
    } else {
        Ok(())
    }
}

// ---------------------------------------------------------------------------
// Leading description comment
// ---------------------------------------------------------------------------
/// The first position at or after `i` where `p` occurs in `s`.
pub open spec fn find_from(s: Seq<char>, p: Seq<char>, i: int) -> Option<int>
    decreases s.len() - i,
{
    if i < 0 || i + p.len() > s.len() {
        None
    } else if p.len() == 0 || s.subrange(i, i + p.len()) == p {
        Some(i)
    } else {
        find_from(s, p, i + 1)
    }
}

/// `s` with every occurrence of `p` removed, scanning left to right
/// (std `str::replace(p, "")`).
pub open spec fn remove_all(s: Seq<char>, p: Seq<char>) -> Seq<char>
    decreases s.len(),
{
    if p.len() == 0 || s.len() < p.len() {
        s
    } else if s.take(p.len() as int) == p {
        remove_all(s.skip(p.len() as int), p)
    } else {
        seq![s[0]] + remove_all(s.drop_first(), p)
    }
}

/// The legacy description: when the trimmed source starts with `{#`, the
/// text before the first `#}` without the comment markers, trimmed.
pub open spec fn description_spec(s: Seq<char>) -> Option<Seq<char>> {
    if starts_with_spec(trim_spec(s), "{#"@) {
        match find_from(s, "#}"@, 0) {
            Some(i) => Some(trim_spec(remove_all(remove_all(s.take(i), "{#"@), "#}"@))),
            None => None,
        }
    } else {
        None
    }
}

fn occurs_here(s: &Vec<char>, p: &Vec<char>, i: usize) -> (r: bool)
    requires
        i <= s@.len(),
    ensures
        r == (i + p@.len() <= s@.len() && s@.subrange(i as int, i + p@.len()) == p@),
{
    if p.len() > s.len() - i {
        return false;
    }
    let mut k: usize = 0;
    while k < p.len()
        invariant
            i + p@.len() <= s@.len(),
            p.len() <= s.len() - i,
            k <= p@.len(),
            forall|m: int| 0 <= m < k ==> s@[i + m] == p@[m],
        decreases p.len() - k,
    {
        assert(i + k < s@.len());
        if s[i + k] != p[k] {
            assert(s@.subrange(i as int, i + p@.len())[k as int] != p@[k as int]);
            return false;
        }
        k = k + 1;
    }
    assert(s@.subrange(i as int, i + p@.len()) =~= p@);
    true
}

fn find_first(s: &Vec<char>, p: &Vec<char>) -> (r: Option<usize>)
    ensures
        r matches Some(j) ==> find_from(s@, p@, 0) == Some(j as int) && j + p@.len() <= s@.len(),
        r is None ==> find_from(s@, p@, 0) is None,
{
    let mut i: usize = 0;
    while i < s.len()
        invariant
            i <= s@.len(),
            find_from(s@, p@, 0) == find_from(s@, p@, i as int),
        decreases s.len() - i,
    {
        if occurs_here(s, p, i) {
            return Some(i);
        }
        proof {
            if p@.len() == 0 {
                assert(s@.subrange(i as int, i as int) =~= p@);
            }
            if i + p@.len() > s@.len() {
                assert(find_from(s@, p@, i as int) is None);
                assert(find_from(s@, p@, i + 1) is None);
            } else {
                assert(p@.len() > 0);
                assert(s@.subrange(i as int, i + p@.len()) != p@);
                assert(find_from(s@, p@, i as int) == find_from(s@, p@, i + 1));
            }
        }
        i = i + 1;
    }
    if occurs_here(s, p, i) {
        return Some(i);
    }
    assert(find_from(s@, p@, i as int) is None) by {
        if i + p@.len() <= s@.len() {
            assert(p@.len() == 0);
            assert(s@.subrange(i as int, i as int) =~= p@);
        }
    }
    None
}

fn remove_all_exec(s: &Vec<char>, p: &Vec<char>) -> (r: Vec<char>)
    ensures
        r@ == remove_all(s@, p@),
{
    if p.len() == 0 {
        return slice_chars(s, 0, s.len());
    }
    let mut out: Vec<char> = Vec::new();
    let mut i: usize = 0;
    assert(s@.skip(0) =~= s@);
    while i < s.len()
        invariant
            p@.len() > 0,
            i <= s@.len(),
            out@ + remove_all(s@.skip(i as int), p@) == remove_all(s@, p@),
        decreases s.len() - i,
    {
        let ghost rest = s@.skip(i as int);
        if occurs_here(s, p, i) {
            assert(rest.take(p@.len() as int) =~= s@.subrange(i as int, i + p@.len()));
            assert(rest.skip(p@.len() as int) =~= s@.skip(i + p@.len()));
            i = i + p.len();
        } else {
            proof {
                if rest.len() >= p@.len() {
                    assert(rest.take(p@.len() as int) =~= s@.subrange(i as int, i + p@.len()));
                    assert(rest.drop_first() =~= s@.skip(i + 1));
                } else {
                    assert(rest =~= seq![s@[i as int]] + s@.skip(i + 1));
                    assert(remove_all(s@.skip(i + 1), p@) == s@.skip(i + 1));
                }
            }
            let ghost before = out@;
            out.push(s[i]);
            assert(out@ =~= before + seq![s@[i as int]]);
            i = i + 1;
        }
    }
    assert(s@.skip(i as int) =~= Seq::<char>::empty());
    assert(out@ + Seq::<char>::empty() =~= out@);
    out
}

/// The legacy leading `{# ... #}` description of a template source.
pub fn description(source: &str) -> (r: Option<String>)
    ensures
        match description_spec(source@) {
            Some(d) => r matches Some(x) && x@ == d,
            None => r is None,
        },
{
    let s = chars_of(source);
    let open = chars_of("{#");
    let close = chars_of("#}");
    let t = trim_chars(&s);
    proof {
        reveal_strlit("{#");
    }
    if !(t.len() >= 2 && t[0] == open[0] && t[1] == open[1]) {
        proof {
            reveal_strlit("{#");
            if t@.len() >= 2 {
                assert(t@.take(2)[0] == t@[0]);
                assert(t@.take(2)[1] == t@[1]);
            }
        }
        return None;
    }
    proof {
        reveal_strlit("{#");
        assert(t@.take(2) =~= "{#"@);
    }
    match find_first(&s, &close) {
        None => None,
        Some(i) => {
            let left = slice_chars(&s, 0, i);
            assert(left@ =~= s@.take(i as int));
            let a = remove_all_exec(&left, &open);
            let b = remove_all_exec(&a, &close);
            let c = trim_chars(&b);
            Some(string_from_chars(c.as_slice()))
        },
    }
}

// ---------------------------------------------------------------------------
// Template files
// ---------------------------------------------------------------------------
/// Whether a file extension marks a template (`tfmt`, `jinja` or `j2`).
pub open spec fn is_template_extension(e: Seq<char>) -> bool {
    e == "tfmt"@ || e == "jinja"@ || e == "j2"@
}

/// Whether the file at `path` is a template, judged by its extension.
pub fn path_is_template(path: &str) -> (r: bool)
    ensures
        r == (utf8_extension(path@) is Some && is_template_extension(utf8_extension(path@)->0)),
{
    match extension(path) {
        None => false,
        Some(e) => {
            let ec = chars_of(e.as_str());
            let a = chars_of("tfmt");
            let b = chars_of("jinja");
            let c = chars_of("j2");
            chars_eq(&ec, &a) || chars_eq(&ec, &b) || chars_eq(&ec, &c)
        },
    }
}

/// The name a template is shown under: the frontmatter's `name`, else the
/// lookup name.
pub open spec fn display_name_spec(lookup: Seq<char>, fm: Option<Option<Seq<char>>>) -> Seq<char> {
    match fm {
        Some(Some(n)) => n,
        _ => lookup,
    }
}

/// A template's description: with frontmatter only the frontmatter's
/// `description` (never a leading comment), without it the leading comment.
pub open spec fn display_description_spec(fm_description: Option<Option<Seq<char>>>, source: Seq<char>) -> Option<
    Seq<char>,
> {
    match fm_description {
        Some(d) => d,
        None => description_spec(source),
    }
}

/// The display name and description of the template `name` with the given
/// frontmatter and source.
pub fn resolve_display_metadata(name: &str, frontmatter: Option<&Frontmatter>, source: &str) -> (r: (
    String,
    Option<String>,
))
    ensures
        r.0@ == display_name_spec(
            name@,
            match frontmatter {
                Some(f) => Some(f@.name),
                None => None,
            },
        ),
        opt_string_view(r.1) == display_description_spec(
            match frontmatter {
                Some(f) => Some(f@.description),
                None => None,
            },
            source@,
        ),
{
    let desc = match frontmatter {
        Some(f) => match f.description() {
            Some(d) => Some(d.to_owned()),
            None => None,
        },
        None => description(source),
    };
    let display = match frontmatter {
        Some(f) => match f.name() {
            Some(n) => n.to_owned(),
            None => name.to_owned(),
        },
        None => name.to_owned(),
    };
    (display, desc)
}


// ---------------------------------------------------------------------------
// Templates
// ---------------------------------------------------------------------------
/// A template ready to be rendered: its display name and description, the
/// arguments it declares, and the values its arguments resolved to.
#[derive(Debug)]
pub struct Template {
    name: String,
    description: Option<String>,
    declared_args: Vec<ArgSpec>,
    resolved: ResolvedArgs,
}

/// Mathematical view of a [`Template`].
pub struct TemplateView {
    pub name: Seq<char>,
    pub description: Option<Seq<char>>,
    pub declared_args: Seq<ArgSpecView>,
    pub resolved: ResolvedArgsView,
}

impl View for Template {
    type V = TemplateView;

    closed spec fn view(&self) -> TemplateView {
        TemplateView {
            name: self.name@,
            description: opt_string_view(self.description),
            declared_args: arg_views(self.declared_args@),
            resolved: self.resolved@,
        }
    }
}

/// The raw positional arguments as string values.
pub open spec fn raw_argument_values(arguments: Seq<String>) -> Seq<ArgValueView> {
    arguments.map_values(|s: String| ArgValueView::Str(s@))
}

impl Template {
    /// A template whose arguments are resolved against its frontmatter (under
    /// the lookup name), or passed through raw when it has none.
    pub fn new(
        lookup_name: &str,
        display_name: String,
        description: Option<String>,
        arguments: Vec<String>,
        frontmatter: Option<&Frontmatter>,
    ) -> (r: Result<Template, TFMTError>)
        ensures
            match frontmatter {
                Some(f) => match resolve_spec(
                    f@.args,
                    lookup_name@,
                    arguments@.map_values(|s: String| s@),
                ) {
                    Ok(vals) => r matches Ok(t) && t@ == (TemplateView {
                        name: display_name@,
                        description: opt_string_view(description),
                        declared_args: f@.args,
                        resolved: ResolvedArgsView {
                            named: zip_names(f@.args, vals),
                            positional: vals,
                        },
                    }),
                    Err(e) => r matches Err(err) && err@ == e,
                },
                None => r matches Ok(t) && t@.name == display_name@ && t@.description
                    == opt_string_view(description) && t@.declared_args.len() == 0
                    && t@.resolved.named.len() == 0 && t@.resolved.positional
                    == raw_argument_values(arguments@),
            },
    {
        match frontmatter {
            Some(f) => {
                let declared = f.args_vec();
                match f.resolve(lookup_name, arguments.as_slice()) {
                    Ok(resolved) => Ok(
                        Template { name: display_name, description, declared_args: declared, resolved },
                    ),
                    Err(e) => Err(e),
                }
            },
            None => {
                let declared: Vec<ArgSpec> = Vec::new();
                let resolved = ResolvedArgs::raw(arguments);
                let t = Template { name: display_name, description, declared_args: declared, resolved };
                assert(arg_views(t.declared_args@) =~= Seq::<ArgSpecView>::empty());
                Ok(t)
            },
        }
    }

    /// A template for listing: its arguments are declared but not resolved.
    pub fn for_display(display_name: String, description: Option<String>, declared_args: Vec<ArgSpec>) -> (r:
        Template)
        ensures
            r@.name == display_name@,
            r@.description == opt_string_view(description),
            r@.declared_args == arg_views(declared_args@),
            r@.resolved.named.len() == 0,
            r@.resolved.positional.len() == 0,
    {
        Template { name: display_name, description, declared_args, resolved: ResolvedArgs::empty() }
    }

    pub fn name(&self) -> (r: &str)
        ensures
            r@ == self@.name,
    {
        self.name.as_str()
    }

    pub fn description(&self) -> (r: Option<&String>)
        ensures
            r matches Some(d) ==> self@.description == Some(d@),
            r is None ==> self@.description is None,
    {
        match &self.description {
            Some(d) => Some(d),
            None => None,
        }
    }

    pub fn declared_args(&self) -> (r: &[ArgSpec])
        ensures
            arg_views(r@) == self@.declared_args,
    {
        self.declared_args.as_slice()
    }

    /// The resolved argument values the template is rendered with.
    pub fn resolved(&self) -> (r: &ResolvedArgs)
        ensures
            r@ == self@.resolved,
    {
        &self.resolved
    }
}


/// Completes the split of a template source once its frontmatter text was
/// parsed (`parsed` holds the parse of `split.frontmatter_text`): a parse
/// error comes first, then a duplicate argument name, then indexed
/// positional arguments in the body.
pub fn complete_frontmatter_split(
    label: &str,
    split: SplitSource,
    parsed: Option<Result<Frontmatter, TFMTError>>,
) -> (r: Result<(String, Option<Frontmatter>), TFMTError>)
    requires
        split.frontmatter_text is Some <==> parsed is Some,
    ensures
        match parsed {
            None => r matches Ok(p) && p.0@ == split.body@ && p.1 is None,
            Some(Err(e)) => r matches Err(err) && err@ == e@,
            Some(Ok(f)) => match crate::frontmatter::first_duplicate_upto(
                f@.args,
                f@.args.len() as int,
            ) {
                Some(i) => r matches Err(err) && err@ == TFMTErrorView::DuplicateArgumentName(
                    label@,
                    f@.args[i].name,
                ),
                None => if regex_search(indexed_args_pattern(), split.body@) == Some(true) {
                    r matches Err(err) && err@ == TFMTErrorView::IndexedArgsWithFrontmatter(label@)
                } else {
                    r matches Ok(p) && p.0@ == split.body@ && (p.1 matches Some(g) && g@ == f@)
                },
            },
        },
{
    match parsed {
        None => Ok((split.body, None)),
        Some(Err(e)) => Err(e),
        Some(Ok(f)) => {
            match f.check_argument_names(label) {
                Err(e) => {
                    return Err(e);
                },
                Ok(()) => {},
            }
            match check_frontmatter_body(label, split.body.as_str()) {
                Err(e) => Err(e),
                Ok(()) => Ok((split.body, Some(f))),
            }
        },
    }
}

} // verus!
