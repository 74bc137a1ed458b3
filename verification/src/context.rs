//! How template lookups are answered from an audio file's tags: which field
//! a lookup names, and how tag text becomes a template value.

use crate::container::{parse_u64, parse_u64_spec};
use crate::sanitize::{remove_forbidden_characters, remove_forbidden_spec};
use crate::text::{chars_eq, chars_of, string_from_chars, to_lowercase, unicode_lowercase};
use vstd::prelude::*;

verus! {

/// Notices about a run that do not stop it.
#[derive(Debug, PartialEq, Eq)]
pub enum Warning {
    WhitespaceInTag { file: String, tag_name: String },
    DeprecatedPositionalArgs { template: String },
    DeprecatedLeadingComment { template: String },
}

/// What std's `str::parse::<usize>` returns.
pub open spec fn parse_usize_spec(s: Seq<char>) -> Option<nat> {
    match parse_u64_spec(s) {
        Some(n) => if n <= usize::MAX {
            Some(n)
        } else {
            None
        },
        None => None,
    }
}

/// Parses a decimal `usize` as std's `str::parse::<usize>` does.
pub fn parse_usize(s: &str) -> (r: Option<usize>)
    ensures
        r matches Some(v) ==> parse_usize_spec(s@) == Some(v as nat),
        r is None ==> parse_usize_spec(s@) is None,
{
    match parse_u64(s) {
        Some(n) => if n <= usize::MAX as u64 {
            Some(n as usize)
        } else {
            None
        },
        None => None,
    }
}

/// The position of the first `c` in `s`.
pub open spec fn first_index_of(s: Seq<char>, c: char) -> Option<int>
    decreases s.len(),
{
    if s.len() == 0 {
        None
    } else if s[0] == c {
        Some(0)
    } else {
        match first_index_of(s.drop_first(), c) {
            Some(i) => Some(i + 1),
            None => None,
        }
    }
}

/// A number with an optional total (`3` or `3/12`), as track and disc
/// numbers are written.
pub open spec fn number_with_total_spec(s: Seq<char>) -> Option<(nat, Option<nat>)> {
    match first_index_of(s, '/') {
        Some(i) => match (parse_usize_spec(s.take(i)), parse_usize_spec(s.skip(i + 1))) {
            (Some(c), Some(t)) => Some((c, Some(t))),
            _ => None,
        },
        None => match parse_usize_spec(s) {
            Some(c) => Some((c, None)),
            None => None,
        },
    }
}

proof fn lemma_first_index_of(s: Seq<char>, c: char, i: int)
    requires
        0 <= i <= s.len(),
        forall|k: int| 0 <= k < i ==> s[k] != c,
        i == s.len() || s[i] == c,
    ensures
        first_index_of(s, c) == (if i < s.len() {
            Some(i)
        } else {
            None::<int>
        }),
    decreases s.len(),
{
    if s.len() > 0 && i > 0 {
        assert forall|k: int| 0 <= k < i - 1 implies s.drop_first()[k] != c by {
            assert(s.drop_first()[k] == s[k + 1]);
        }
        if i < s.len() {
            assert(s.drop_first()[i - 1] == s[i]);
        }
        lemma_first_index_of(s.drop_first(), c, i - 1);
    }
}

/// Splits a number with an optional total.
pub fn parse_number_with_optional_total(s: &str) -> (r: Option<(usize, Option<usize>)>)
    ensures
        match number_with_total_spec(s@) {
            Some((c, t)) => r matches Some(p) && p.0 as nat == c && match t {
                Some(tv) => p.1 matches Some(x) && x as nat == tv,
                None => p.1 is None,
            },
            None => r is None,
        },
{
    let chars = chars_of(s);
    let mut i: usize = 0;
    while i < chars.len() && chars[i] != '/'
        invariant
            i <= chars@.len(),
            forall|k: int| 0 <= k < i ==> chars@[k] != '/',
        decreases chars.len() - i,
    {
        i = i + 1;
    }
    proof {
        lemma_first_index_of(chars@, '/', i as int);
    }
    if i < chars.len() {
        let left = crate::text::slice_chars(&chars, 0, i);
        let right = crate::text::slice_chars(&chars, i + 1, chars.len());
        assert(left@ =~= chars@.take(i as int));
        assert(right@ =~= chars@.skip(i + 1));
        let ls = string_from_chars(left.as_slice());
        let rs = string_from_chars(right.as_slice());
        let current = match parse_usize(ls.as_str()) {
            Some(c) => c,
            None => {
                return None;
            },
        };
        let total = match parse_usize(rs.as_str()) {
            Some(t) => t,
            None => {
                return None;
            },
        };
        Some((current, Some(total)))
    } else {
        match parse_usize(s) {
            Some(c) => Some((c, None)),
            None => None,
        }
    }
}

/// A value handed to a template: a number when the text is one.
#[derive(Debug, PartialEq, Eq)]
pub enum OutputValue {
    Number(usize),
    Text(String),
}

/// Tag text as a template value: a number when it parses as `usize`.
pub fn coerce_output_value(string: String) -> (r: OutputValue)
    ensures
        match parse_usize_spec(string@) {
            Some(n) => r == OutputValue::Number(n as usize),
            None => r matches OutputValue::Text(t) && t@ == string@,
        },
{
    match parse_usize(string.as_str()) {
        Some(n) => OutputValue::Number(n),
        None => OutputValue::Text(string),
    }
}

/// What a template lookup asks for.
#[derive(Debug, PartialEq, Eq)]
pub enum FieldRequest {
    /// The positional arguments (`args` or `arguments`).
    Arguments,
    /// The recording date (falling back to the year and the original
    /// release date).
    Date,
    /// A tag, by its lowercase name.
    Tag(String),
}

/// The request a field name makes, compared in lowercase.
pub open spec fn field_request_spec(field: Seq<char>) -> (bool, bool, Seq<char>) {
    let lower = unicode_lowercase(field);
    (lower == "args"@ || lower == "arguments"@, lower == "date"@, lower)
}

/// What a template lookup of `field` asks for.
pub fn classify_field(field: &str) -> (r: FieldRequest)
    ensures
        ({
            let (args, date, lower) = field_request_spec(field@);
            &&& args ==> r == FieldRequest::Arguments
            &&& !args && date ==> r == FieldRequest::Date
            &&& !args && !date ==> (r matches FieldRequest::Tag(t) && t@ == lower)
        }),
{
    let lower = to_lowercase(field);
    let l = chars_of(lower.as_str());
    let a = chars_of("args");
    let b = chars_of("arguments");
    let d = chars_of("date");
    if chars_eq(&l, &a) || chars_eq(&l, &b) {
        FieldRequest::Arguments
    } else if chars_eq(&l, &d) {
        FieldRequest::Date
    } else {
        FieldRequest::Tag(lower)
    }
}

// ---------------------------------------------------------------------------
// Tag values
// ---------------------------------------------------------------------------
/// A tag value as a template sees it: made safe for a file name, then a
/// number when it is one.
pub open spec fn tag_value_spec(raw: Seq<char>) -> Result<nat, Seq<char>> {
    let safe = remove_forbidden_spec(raw);
    match parse_usize_spec(safe) {
        Some(n) => Ok(n),
        None => Err(safe),
    }
}

/// What a template gets for a tag holding `raw`.
pub fn tag_value(raw: String) -> (r: OutputValue)
    ensures
        match tag_value_spec(raw@) {
            Ok(n) => r == OutputValue::Number(n as usize),
            Err(t) => r matches OutputValue::Text(x) && x@ == t,
        },
{
    let safe = remove_forbidden_characters(raw.as_str());
    coerce_output_value(safe)
}

/// How a tag is read: as the total of a `number/total` pair (disc, track
/// and movement totals), as its number (disc, track and movement numbers),
/// or as it is.
#[derive(Debug, Clone, Copy, PartialEq, Eq, Structural)]
pub enum TagKind {
    Total,
    Number,
    Plain,
}

/// The value of a tag of kind `kind` holding `raw` (`None` for no tag).
pub open spec fn tag_lookup_spec(kind: TagKind, raw: Option<Seq<char>>) -> Option<
    Result<nat, Seq<char>>,
> {
    match raw {
        None => None,
        Some(t) => match kind {
            TagKind::Total => match number_with_total_spec(t) {
                Some((_, Some(total))) => Some(Ok(total)),
                _ => None,
            },
            TagKind::Number => match number_with_total_spec(t) {
                Some((current, _)) => Some(Ok(current)),
                None => None,
            },
            TagKind::Plain => Some(tag_value_spec(t)),
        },
    }
}

pub open spec fn output_matches(r: OutputValue, v: Result<nat, Seq<char>>) -> bool {
    match v {
        Ok(n) => r == OutputValue::Number(n as usize),
        Err(t) => r matches OutputValue::Text(x) && x@ == t,
    }
}

pub open spec fn opt_string_view(o: Option<String>) -> Option<Seq<char>> {
    match o {
        Some(s) => Some(s@),
        None => None,
    }
}

/// The value a template gets for a tag of kind `kind` whose text is `raw`.
pub fn tag_lookup(kind: TagKind, raw: Option<String>) -> (r: Option<OutputValue>)
    ensures
        match tag_lookup_spec(kind, opt_string_view(raw)) {
            Some(v) => r matches Some(o) && output_matches(o, v),
            None => r is None,
        },
{
    match raw {
        None => None,
        Some(t) => match kind {
            TagKind::Total => match parse_number_with_optional_total(t.as_str()) {
                Some((_, Some(total))) => Some(OutputValue::Number(total)),
                _ => None,
            },
            TagKind::Number => match parse_number_with_optional_total(t.as_str()) {
                Some((current, _)) => Some(OutputValue::Number(current)),
                None => None,
            },
            TagKind::Plain => Some(tag_value(t)),
        },
    }
}

/// The date of a recording: the first of the recording date, the year and
/// the original release date that is tagged.
pub open spec fn date_spec(
    recording_date: Option<Seq<char>>,
    year: Option<Seq<char>>,
    original_release_date: Option<Seq<char>>,
) -> Option<Result<nat, Seq<char>>> {
    match recording_date {
        Some(t) => Some(tag_value_spec(t)),
        None => match year {
            Some(t) => Some(tag_value_spec(t)),
            None => match original_release_date {
                Some(t) => Some(tag_value_spec(t)),
                None => None,
            },
        },
    }
}

/// The value a template gets for `date`.
pub fn date_value(
    recording_date: Option<String>,
    year: Option<String>,
    original_release_date: Option<String>,
) -> (r: Option<OutputValue>)
    ensures
        match date_spec(
            opt_string_view(recording_date),
            opt_string_view(year),
            opt_string_view(original_release_date),
        ) {
            Some(v) => r matches Some(o) && output_matches(o, v),
            None => r is None,
        },
{
    match recording_date {
        Some(t) => Some(tag_value(t)),
        None => match year {
            Some(t) => Some(tag_value(t)),
            None => match original_release_date {
                Some(t) => Some(tag_value(t)),
                None => None,
            },
        },
    }
}

// ---------------------------------------------------------------------------
// The values of an audio file
// ---------------------------------------------------------------------------
/// What a template lookup gives.
#[derive(Debug, PartialEq, Eq)]
pub enum TemplateValue {
    /// The run's positional arguments.
    Arguments(Vec<String>),
    Number(usize),
    Text(String),
}

/// The values templates see of one audio file: the text of each of its
/// tags (by key, in the order of [`crate::item_keys::key_names`]; `None`
/// when untagged) and the run's arguments.
#[derive(Debug)]
pub struct AudioFileContext {
    tags: Vec<Option<String>>,
    arguments: Vec<String>,
}

/// Mathematical view of an [`AudioFileContext`].
pub struct AudioFileContextView {
    pub tags: Seq<Option<Seq<char>>>,
    pub arguments: Seq<Seq<char>>,
}

impl View for AudioFileContext {
    type V = AudioFileContextView;

    closed spec fn view(&self) -> AudioFileContextView {
        AudioFileContextView {
            tags: self.tags@.map_values(|t: Option<String>| opt_string_view(t)),
            arguments: self.arguments@.map_values(|s: String| s@),
        }
    }
}

/// The value a template gets for `field` (see [`field_request_spec`]): the
/// arguments, the date, or the tag the field names (when the name is
/// known and the file has it).
pub open spec fn field_value_spec(ctx: AudioFileContextView, field: Seq<char>) -> Option<
    TemplateValueView,
> {
    let (args, date, lower) = field_request_spec(field);
    if args {
        Some(TemplateValueView::Arguments(ctx.arguments))
    } else if date {
        match date_spec(tag_at(ctx, 39), tag_at(ctx, 40), tag_at(ctx, 42)) {
            Some(v) => Some(value_view_of(v)),
            None => None,
        }
    } else {
        match crate::item_keys::first_match(crate::item_keys::all_candidates(), lower) {
            None => None,
            Some(k) => match tag_lookup_spec(crate::item_keys::tag_kind_spec(k), tag_at(ctx, k)) {
                Some(v) => Some(value_view_of(v)),
                None => None,
            },
        }
    }
}

/// The text of the tag with key `k`, if the file has it.
pub open spec fn tag_at(ctx: AudioFileContextView, k: nat) -> Option<Seq<char>> {
    if k < ctx.tags.len() {
        ctx.tags[k as int]
    } else {
        None
    }
}

/// Mathematical view of a [`TemplateValue`].
pub enum TemplateValueView {
    Arguments(Seq<Seq<char>>),
    Number(nat),
    Text(Seq<char>),
}

pub open spec fn value_view_of(v: Result<nat, Seq<char>>) -> TemplateValueView {
    match v {
        Ok(n) => TemplateValueView::Number(n),
        Err(t) => TemplateValueView::Text(t),
    }
}

impl View for TemplateValue {
    type V = TemplateValueView;

    open spec fn view(&self) -> TemplateValueView {
        match self {
            TemplateValue::Arguments(a) => TemplateValueView::Arguments(
                a@.map_values(|s: String| s@),
            ),
            TemplateValue::Number(n) => TemplateValueView::Number(*n as nat),
            TemplateValue::Text(t) => TemplateValueView::Text(t@),
        }
    }
}

fn to_template_value(o: OutputValue) -> (r: TemplateValue)
    ensures
        match o {
            OutputValue::Number(n) => r == TemplateValue::Number(n),
            OutputValue::Text(t) => r@ == TemplateValueView::Text(t@),
        },
{
    match o {
        OutputValue::Number(n) => TemplateValue::Number(n),
        OutputValue::Text(t) => TemplateValue::Text(t),
    }
}

fn clone_opt(o: &Option<String>) -> (r: Option<String>)
    ensures
        opt_string_view(r) == opt_string_view(*o),
{
    match o {
        Some(s) => Some(s.clone()),
        None => None,
    }
}

impl AudioFileContext {
    /// The values of a file whose tags hold `tags`, for a run with
    /// `arguments`.
    pub fn safe(tags: Vec<Option<String>>, arguments: Vec<String>) -> (r: Self)
        ensures
            r@.tags == tags@.map_values(|t: Option<String>| opt_string_view(t)),
            r@.arguments == arguments@.map_values(|s: String| s@),
    {
        AudioFileContext { tags, arguments }
    }

    fn tag(&self, key: usize) -> (r: Option<String>)
        ensures
            opt_string_view(r) == tag_at(self@, key as nat),
    {
        if key < self.tags.len() {
            clone_opt(&self.tags[key])
        } else {
            None
        }
    }

    /// The value a template gets for `field` (see [`field_value_spec`]);
    /// tag names are looked up in `keys`.
    pub fn get_value(&self, keys: &crate::item_keys::ItemKeys, field: &str) -> (r: Option<
        TemplateValue,
    >)
        requires
            keys.well_formed(),
        ensures
            match field_value_spec(self@, field@) {
                Some(v) => r matches Some(x) && x@ == v,
                None => r is None,
            },
    {
        match classify_field(field) {
            FieldRequest::Arguments => {
                let mut a: Vec<String> = Vec::new();
                let mut i: usize = 0;
                while i < self.arguments.len()
                    invariant
                        i <= self.arguments@.len(),
                        a@.map_values(|s: String| s@) == self@.arguments.take(i as int),
                        self@.arguments == self.arguments@.map_values(|s: String| s@),
                    decreases self.arguments.len() - i,
                {
                    let ghost before = a@.map_values(|s: String| s@);
                    a.push(self.arguments[i].clone());
                    assert(a@.map_values(|s: String| s@) =~= before.push(self.arguments@[i as int]@));
                    assert(self@.arguments.take(i + 1) =~= self@.arguments.take(i as int).push(
                        self.arguments@[i as int]@,
                    ));
                    i = i + 1;
                }
                assert(self@.arguments.take(self.arguments@.len() as int) =~= self@.arguments);
                Some(TemplateValue::Arguments(a))
            },
            FieldRequest::Date => {
                match date_value(self.tag(39), self.tag(40), self.tag(42)) {
                    Some(o) => Some(to_template_value(o)),
                    None => None,
                }
            },
            FieldRequest::Tag(lower) => {
                proof {
                    crate::item_keys::lemma_keys_in_range(lower@);
                }
                match keys.from_string(lower.as_str()) {
                    Err(_) => None,
                    Ok(k) => {
                        let raw = self.tag(k);
                        match tag_lookup(crate::item_keys::tag_kind(k), raw) {
                            Some(o) => Some(to_template_value(o)),
                            None => None,
                        }
                    },
                }
            },
        }
    }
}

// ---------------------------------------------------------------------------
// Target paths
// ---------------------------------------------------------------------------
/// Where a rendered template puts a file: the rendered path, below
/// `directory`, with the source's extension kept.
pub open spec fn target_path_spec(directory: Seq<char>, rendered: Seq<char>, source: Seq<char>) -> Seq<
    char,
> {
    crate::paths::utf8_join(
        directory,
        rendered + match crate::paths::utf8_extension(source) {
            Some(e) => "."@ + e,
            None => seq![],
        },
    )
}

/// The target of `source` when its template rendered `rendered`.
pub fn construct_target_path(directory: &str, rendered: &str, source: &str) -> (r: String)
    ensures
        r@ == target_path_spec(directory@, rendered@, source@),
{
    let mut v = chars_of(rendered);
    match crate::paths::extension(source) {
        Some(e) => {
            crate::text::push_str(&mut v, ".");
            crate::text::push_str(&mut v, e.as_str());
            assert(v@ =~= rendered@ + ("."@ + e@));
        },
        None => {
            assert(v@ =~= rendered@ + Seq::<char>::empty());
        },
    }
    let name = string_from_chars(v.as_slice());
    crate::paths::join(directory, name.as_str())
}

/// A tag value that reaches a template as text holds no path separator,
/// so tags cannot make folders.
pub proof fn lemma_tag_text_has_no_separator(raw: Seq<char>)
    ensures
        tag_value_spec(raw) matches Err(t) ==> forall|k: int|
            0 <= k < t.len() ==> t[k] != '/' && t[k] != '\\',
{
    crate::sanitize::lemma_sanitized_is_safe(raw);
    reveal_with_fuel(crate::sanitize::table_lookup, 11);
    assert(crate::sanitize::is_forbidden('/'));
    assert(crate::sanitize::is_forbidden('\\'));
}

} // verus!
