//! Textual summaries of the run history.

use crate::action::ActionView;
use crate::history::{
    redo_list, undo_list, History, HistoryError, Record, RecordView, TemplateMetadata,
    TemplateMetadataView, record_views,
};
use crate::text::{
    chars_of, decimal_spec, join_spec, pad_left, pad_left_spec, push_all, push_str, spaces,
    string_from_chars, usize_to_decimal,
};
use chrono::TimeZone;
use vstd::prelude::*;

verus! {

/// How much of each record is shown.
#[derive(Debug, Clone, Copy, PartialEq, Eq, Structural)]
pub enum HistoryFormat {
    Normal,
    Verbose,
}

/// How the entries of a list of records are marked.
#[derive(Debug, Clone, Copy, PartialEq, Eq, Structural)]
pub enum HistoryPrefix {
    Ordered(char),
}

/// The marker of entry `index` of `total`: its number (from one),
/// right-aligned to the width of `total`, the list style and a space.
pub open spec fn prefix_text(prefix: HistoryPrefix, index: nat, total: nat) -> Seq<char> {
    match prefix {
        HistoryPrefix::Ordered(style) => pad_left_spec(
            decimal_spec(index + 1),
            decimal_spec(total).len(),
        ) + seq![style] + " "@,
    }
}

impl HistoryPrefix {
    pub fn format(&self, index: usize, total: usize) -> (r: String)
        requires
            index < usize::MAX,
        ensures
            r@ == prefix_text(*self, index as nat, total as nat),
    {
        match self {
            HistoryPrefix::Ordered(style) => {
                let width = usize_to_decimal(total).len();
                let num = usize_to_decimal(index + 1);
                let mut out = pad_left(&num, width);
                out.push(*style);
                push_str(&mut out, " ");
                string_from_chars(out.as_slice())
            },
        }
    }
}

// ---------------------------------------------------------------------------
// Record summaries
// ---------------------------------------------------------------------------
/// How many actions of each kind a record holds.
pub open spec fn count_moves(a: Seq<ActionView>) -> nat
    decreases a.len(),
{
    if a.len() == 0 {
        0
    } else {
        count_moves(a.drop_last()) + if a.last() is MoveFile {
            1nat
        } else {
            0nat
        }
    }
}

pub open spec fn count_copies(a: Seq<ActionView>) -> nat
    decreases a.len(),
{
    if a.len() == 0 {
        0
    } else {
        count_copies(a.drop_last()) + if a.last() is CopyFile {
            1nat
        } else {
            0nat
        }
    }
}

pub open spec fn count_removed_files(a: Seq<ActionView>) -> nat
    decreases a.len(),
{
    if a.len() == 0 {
        0
    } else {
        count_removed_files(a.drop_last()) + if a.last() is RemoveFile {
            1nat
        } else {
            0nat
        }
    }
}

pub open spec fn count_made_dirs(a: Seq<ActionView>) -> nat
    decreases a.len(),
{
    if a.len() == 0 {
        0
    } else {
        count_made_dirs(a.drop_last()) + if a.last() is MakeDir {
            1nat
        } else {
            0nat
        }
    }
}

pub open spec fn count_removed_dirs(a: Seq<ActionView>) -> nat
    decreases a.len(),
{
    if a.len() == 0 {
        0
    } else {
        count_removed_dirs(a.drop_last()) + if a.last() is RemoveDir {
            1nat
        } else {
            0nat
        }
    }
}

/// A record summary counts each kind of action and nothing else: its moves
/// are the record's `MoveFile` actions, its copies the `CopyFile` ones, its
/// removed files the `RemoveFile` ones, its made folders the `MakeDir`
/// ones and its removed folders the `RemoveDir` ones.
pub proof fn lemma_summary_counts_each_kind(v: RecordSummaryView, a: Seq<ActionView>)
    requires
        counts_of(v, a),
    ensures
        v.mv == a.filter(|x: ActionView| x is MoveFile).len(),
        v.cp == a.filter(|x: ActionView| x is CopyFile).len(),
        v.rm_file == a.filter(|x: ActionView| x is RemoveFile).len(),
        v.mk_dir == a.filter(|x: ActionView| x is MakeDir).len(),
        v.rm_dir == a.filter(|x: ActionView| x is RemoveDir).len(),
{
    lemma_counts_are_filters(a);
}

proof fn lemma_counts_are_filters(a: Seq<ActionView>)
    ensures
        count_moves(a) == a.filter(|x: ActionView| x is MoveFile).len(),
        count_copies(a) == a.filter(|x: ActionView| x is CopyFile).len(),
        count_removed_files(a) == a.filter(|x: ActionView| x is RemoveFile).len(),
        count_made_dirs(a) == a.filter(|x: ActionView| x is MakeDir).len(),
        count_removed_dirs(a) == a.filter(|x: ActionView| x is RemoveDir).len(),
    decreases a.len(),
{
    reveal(Seq::filter);
    if a.len() > 0 {
        lemma_counts_are_filters(a.drop_last());
    }
}

/// The part of a summary for `amount` items: nothing for none, else the
/// amount and the singular or plural name.
pub open spec fn summary_part(amount: nat, singular: Seq<char>, plural: Seq<char>) -> Seq<
    Seq<char>,
> {
    if amount == 0 {
        seq![]
    } else if amount == 1 {
        seq!["1 "@ + singular]
    } else {
        seq![decimal_spec(amount) + " "@ + plural]
    }
}

/// What a run did, in words.
pub open spec fn summary_text(mk_dir: nat, mv: nat, cp: nat, rm_file: nat, rm_dir: nat) -> Seq<
    char,
> {
    join_spec(
        summary_part(mk_dir, "directory created"@, "directories created"@) + summary_part(
            mv,
            "file moved"@,
            "files moved"@,
        ) + summary_part(cp, "file copied"@, "files copied"@) + summary_part(
            rm_file,
            "file removed"@,
            "files removed"@,
        ) + summary_part(rm_dir, "directory removed"@, "directories removed"@),
        ", "@,
    )
}

/// Appends the summary part for `amount` items.
pub fn push_summary_part(strings: &mut Vec<String>, amount: usize, singular: &str, plural: &str)
    ensures
        final(strings)@.map_values(|s: String| s@) == old(strings)@.map_values(|s: String| s@)
            + summary_part(amount as nat, singular@, plural@),
{
    let ghost before = strings@.map_values(|s: String| s@);
    if amount == 0 {
        assert(strings@.map_values(|s: String| s@) =~= before + summary_part(
            amount as nat,
            singular@,
            plural@,
        ));
    } else if amount == 1 {
        let mut v: Vec<char> = Vec::new();
        push_str(&mut v, "1 ");
        push_str(&mut v, singular);
        strings.push(string_from_chars(v.as_slice()));
        assert(strings@.map_values(|s: String| s@) =~= before + summary_part(
            amount as nat,
            singular@,
            plural@,
        ));
    } else {
        let mut v = usize_to_decimal(amount);
        push_str(&mut v, " ");
        push_str(&mut v, plural);
        strings.push(string_from_chars(v.as_slice()));
        assert(strings@.map_values(|s: String| s@) =~= before + summary_part(
            amount as nat,
            singular@,
            plural@,
        ));
    }
}

/// How many actions of each kind a run performed, and its identifier.
#[derive(Debug)]
pub struct RecordSummary {
    mv: usize,
    cp: usize,
    rm_file: usize,
    mk_dir: usize,
    rm_dir: usize,
    run_id: String,
}

/// Mathematical view of a [`RecordSummary`].
pub struct RecordSummaryView {
    pub mv: nat,
    pub cp: nat,
    pub rm_file: nat,
    pub mk_dir: nat,
    pub rm_dir: nat,
    pub run_id: Seq<char>,
}

impl View for RecordSummary {
    type V = RecordSummaryView;

    closed spec fn view(&self) -> RecordSummaryView {
        RecordSummaryView {
            mv: self.mv as nat,
            cp: self.cp as nat,
            rm_file: self.rm_file as nat,
            mk_dir: self.mk_dir as nat,
            rm_dir: self.rm_dir as nat,
            run_id: self.run_id@,
        }
    }
}

/// The counts of a record's actions by kind.
pub open spec fn counts_of(v: RecordSummaryView, a: Seq<ActionView>) -> bool {
    &&& v.mv == count_moves(a)
    &&& v.cp == count_copies(a)
    &&& v.rm_file == count_removed_files(a)
    &&& v.mk_dir == count_made_dirs(a)
    &&& v.rm_dir == count_removed_dirs(a)
}

impl RecordSummary {
    /// Counts the actions of a record by kind.
    pub fn from_record(record: &Record) -> (r: Self)
        ensures
            counts_of(r@, record@.actions),
            r@.run_id == record@.metadata.run_id,
    {
        let actions = record.actions();
        let ghost a = record@.actions;
        let mut s = RecordSummary {
            mv: 0,
            cp: 0,
            rm_file: 0,
            mk_dir: 0,
            rm_dir: 0,
            run_id: record.metadata().run_id().to_owned(),
        };
        let mut i: usize = 0;
        while i < actions.len()
            invariant
                i <= actions@.len(),
                a == crate::history::action_list_views(actions@),
                counts_of(s@, a.take(i as int)),
                s.mv <= i && s.cp <= i && s.rm_file <= i && s.mk_dir <= i && s.rm_dir <= i,
                s.run_id@ == record@.metadata.run_id,
            decreases actions.len() - i,
        {
            assert(a.take(i + 1).drop_last() =~= a.take(i as int));
            assert(a.take(i + 1).last() == actions@[i as int]@);
            match &actions[i] {
                crate::action::Action::MoveFile { .. } => {
                    s.mv = s.mv + 1;
                },
                crate::action::Action::CopyFile { .. } => {
                    s.cp = s.cp + 1;
                },
                crate::action::Action::RemoveFile(_) => {
                    s.rm_file = s.rm_file + 1;
                },
                crate::action::Action::MakeDir(_) => {
                    s.mk_dir = s.mk_dir + 1;
                },
                crate::action::Action::RemoveDir(_) => {
                    s.rm_dir = s.rm_dir + 1;
                },
                crate::action::Action::EditTagValues { .. } => {},
            }
            i = i + 1;
        }
        assert(a.take(actions.len() as int) =~= a);
        s
    }

    pub fn run_id(&self) -> (r: &str)
        ensures
            r@ == self@.run_id,
    {
        self.run_id.as_str()
    }

    /// The summary in words, such as `2 files moved, 1 file copied`.
    pub fn text(&self) -> (r: String)
        ensures
            r@ == summary_text(self@.mk_dir, self@.mv, self@.cp, self@.rm_file, self@.rm_dir),
    {
        let mut strings: Vec<String> = Vec::new();
        push_summary_part(&mut strings, self.mk_dir, "directory created", "directories created");
        push_summary_part(&mut strings, self.mv, "file moved", "files moved");
        push_summary_part(&mut strings, self.cp, "file copied", "files copied");
        push_summary_part(&mut strings, self.rm_file, "file removed", "files removed");
        push_summary_part(&mut strings, self.rm_dir, "directory removed", "directories removed");
        let sep = chars_of(", ");
        let j = crate::text::join_strings(&strings, &sep);
        assert(crate::text::views_of(strings@) == strings@.map_values(|s: String| s@));
        string_from_chars(j.as_slice())
    }
}

// ---------------------------------------------------------------------------
// Records
// ---------------------------------------------------------------------------
/// The name of the template a run used: its file or name, or `script`.
pub open spec fn template_name_spec(t: TemplateMetadataView) -> Seq<char> {
    match t {
        TemplateMetadataView::FileOrName(f) => f,
        TemplateMetadataView::Script(_) => "script"@,
    }
}

/// A record in words, with its time stamp shown as `date`.
pub open spec fn record_text(format: HistoryFormat, rec: RecordView, date: Seq<char>) -> Seq<char> {
    let a = rec.actions;
    let base = date + " [#"@ + rec.metadata.run_id + "] ("@ + summary_text(
        count_made_dirs(a),
        count_moves(a),
        count_copies(a),
        count_removed_files(a),
        count_removed_dirs(a),
    ) + ")"@;
    match format {
        HistoryFormat::Normal => base,
        HistoryFormat::Verbose => "┌ "@ + base + "\n└── "@ + ("'"@ + template_name_spec(
            rec.metadata.template,
        ) + "' => '"@ + join_spec(rec.metadata.arguments, " "@) + "'"@),
    }
}

/// The next line break at or after `i` (or the end of `s`).
pub open spec fn next_newline(s: Seq<char>, i: int) -> int
    decreases s.len() - i,
{
    if i < 0 || i >= s.len() {
        s.len() as int
    } else if s[i] == '\n' {
        i
    } else {
        next_newline(s, i + 1)
    }
}

/// `l` without one trailing carriage return.
pub open spec fn strip_cr(l: Seq<char>) -> Seq<char> {
    if l.len() > 0 && l.last() == '\r' {
        l.drop_last()
    } else {
        l
    }
}

/// The lines of `s` from position `start` on (std `str::lines`).
pub open spec fn lines_from(s: Seq<char>, start: int) -> Seq<Seq<char>>
    decreases s.len() - start,
{
    if start < 0 || start >= s.len() {
        seq![]
    } else {
        let j = next_newline(s, start);
        if j < s.len() && j >= start {
            seq![strip_cr(s.subrange(start, j))] + lines_from(s, j + 1)
        } else {
            seq![s.subrange(start, s.len() as int)]
        }
    }
}

/// The lines after the first, each on a new line and indented.
pub open spec fn indented_lines(ls: Seq<Seq<char>>, indent: nat) -> Seq<char>
    decreases ls.len(),
{
    if ls.len() == 0 {
        seq![]
    } else {
        indented_lines(ls.drop_last(), indent) + "\n"@ + spaces(indent) + ls.last()
    }
}

/// `text` with `prefix` before its first line and the later lines indented
/// by the byte length of `prefix`.
pub open spec fn prefixed_spec(text: Seq<char>, prefix: Seq<char>) -> Seq<char> {
    let ls = lines_from(text, 0);
    prefix + ls[0] + indented_lines(ls.drop_first(), crate::validation::byte_len(prefix))
}

proof fn lemma_next_newline_bounds(s: Seq<char>, i: int)
    requires
        0 <= i <= s.len(),
    ensures
        i <= next_newline(s, i) <= s.len(),
    decreases s.len() - i,
{
    if i < s.len() && s[i] != '\n' {
        lemma_next_newline_bounds(s, i + 1);
    }
}

fn lines_of(s: &Vec<char>) -> (r: Vec<Vec<char>>)
    ensures
        r@.map_values(|l: Vec<char>| l@) == lines_from(s@, 0),
{
    let mut out: Vec<Vec<char>> = Vec::new();
    let mut start: usize = 0;
    while start < s.len()
        invariant
            start <= s@.len(),
            out@.map_values(|l: Vec<char>| l@) + lines_from(s@, start as int) == lines_from(s@, 0),
        decreases s.len() - start,
    {
        let mut j = start;
        while j < s.len() && s[j] != '\n'
            invariant
                start <= j <= s@.len(),
                next_newline(s@, start as int) == next_newline(s@, j as int),
            decreases s.len() - j,
        {
            j = j + 1;
        }
        assert(next_newline(s@, j as int) == j as int);
        let ghost before = out@.map_values(|l: Vec<char>| l@);
        if j < s.len() {
            let mut line = crate::text::slice_chars(s, start, j);
            if line.len() > 0 && line[line.len() - 1] == '\r' {
                line.pop();
                assert(line@ =~= strip_cr(s@.subrange(start as int, j as int)));
            }
            out.push(line);
            assert(out@.map_values(|l: Vec<char>| l@) =~= before.push(
                strip_cr(s@.subrange(start as int, j as int)),
            ));
            assert(lines_from(s@, start as int) =~= seq![
                strip_cr(s@.subrange(start as int, j as int)),
            ] + lines_from(s@, j + 1));
            start = j + 1;
        } else {
            let line = crate::text::slice_chars(s, start, j);
            out.push(line);
            assert(out@.map_values(|l: Vec<char>| l@) =~= before.push(
                s@.subrange(start as int, s@.len() as int),
            ));
            assert(lines_from(s@, j as int) =~= Seq::<Seq<char>>::empty());
            start = j;
        }
    }
    assert(lines_from(s@, start as int) =~= Seq::<Seq<char>>::empty());
    assert(out@.map_values(|l: Vec<char>| l@) + Seq::<Seq<char>>::empty() =~= out@.map_values(
        |l: Vec<char>| l@,
    ));
    out
}

/// `text` with `prefix` before its first line and its later lines indented
/// to align under the first.
pub fn prefix_lines(text: &str, prefix: &str) -> (r: String)
    requires
        text@.len() > 0,
    ensures
        r@ == prefixed_spec(text@, prefix@),
{
    let s = chars_of(text);
    let ls = lines_of(&s);
    let ghost lv = ls@.map_values(|l: Vec<char>| l@);
    assert(lines_from(s@, 0).len() > 0) by {
        lemma_next_newline_bounds(s@, 0);
    }
    let indent = prefix.len();
    let mut out: Vec<char> = Vec::new();
    push_str(&mut out, prefix);
    assert(lv[0] == ls@[0]@);
    push_all(&mut out, &ls[0]);
    let ghost head = out@;
    let mut i: usize = 1;
    while i < ls.len()
        invariant
            1 <= i <= ls@.len(),
            lv == ls@.map_values(|l: Vec<char>| l@),
            out@ == head + indented_lines(lv.subrange(1, i as int), indent as nat),
        decreases ls.len() - i,
    {
        let ghost before = out@;
        push_str(&mut out, "\n");
        let mut k: usize = 0;
        while k < indent
            invariant
                k <= indent,
                out@ == before + "\n"@ + spaces(k as nat),
            decreases indent - k,
        {
            out.push(' ');
            k = k + 1;
            assert(out@ =~= before + "\n"@ + spaces(k as nat));
        }
        assert(lv[i as int] == ls@[i as int]@);
        push_all(&mut out, &ls[i]);
        assert(lv.subrange(1, i + 1).drop_last() =~= lv.subrange(1, i as int));
        assert(lv.subrange(1, i + 1).last() == lv[i as int]);
        i = i + 1;
    }
    assert(lv.subrange(1, ls.len() as int) =~= lv.drop_first());
    string_from_chars(out.as_slice())
}

/// Whether `c` is an ASCII digit.
pub open spec fn is_digit_char(c: char) -> bool {
    '0' <= c && c <= '9'
}

/// The year as `%Y` writes it: four digits, or (for years below zero or
/// above 9999) a sign and at least four digits.
pub open spec fn year_text(y: Seq<char>) -> bool {
    ||| y.len() == 4 && forall|i: int| 0 <= i < 4 ==> is_digit_char(#[trigger] y[i])
    ||| y.len() >= 5 && (y[0] == '+' || y[0] == '-') && forall|i: int|
        1 <= i < y.len() ==> is_digit_char(#[trigger] y[i])
}

/// Whether `t` has the shape of a date in the pattern `%Y-%m-%d %H:%M:%S`:
/// the year, then `-MM-DD HH:MM:SS` with two digits each.
pub open spec fn local_date_text(t: Seq<char>) -> bool {
    &&& t.len() >= 19
    &&& year_text(t.take(t.len() - 15))
    &&& {
        let s = t.skip(t.len() - 15);
        &&& s[0] == '-' && s[3] == '-' && s[6] == ' ' && s[9] == ':' && s[12] == ':'
        &&& is_digit_char(s[1]) && is_digit_char(s[2]) && is_digit_char(s[4]) && is_digit_char(
            s[5],
        )
        &&& is_digit_char(s[7]) && is_digit_char(s[8]) && is_digit_char(s[10]) && is_digit_char(
            s[11],
        )
        &&& is_digit_char(s[13]) && is_digit_char(s[14])
    }
}

/// Whether `d` is a date as records show it: a local date, or `?`.
pub open spec fn shown_date_text(d: Seq<char>) -> bool {
    d == "?"@ || local_date_text(d)
}

/// The date and time of a time stamp (seconds since the Unix epoch) in the
/// local time zone, formatted with `pattern`, by `chrono`
/// (`Local::timestamp_opt` then `DateTime::format`). The text depends on
/// the machine's time zone, so only its shape is stated (what chrono's
/// `%Y`, `%m`, `%d`, `%H`, `%M` and `%S` write); it is absent when the
/// time stamp is out of range. The pattern is the one the formatter
/// shows dates with: `format` fails, and `to_string` panics, on a pattern
/// with an unknown specifier.
#[verifier::external_body]
fn local_time_text(timestamp: i64, pattern: &str) -> (r: Option<String>)
    requires
        pattern@ == "%Y-%m-%d %H:%M:%S"@,
    ensures
        r matches Some(t) ==> local_date_text(t@),
{
    chrono::Local.timestamp_opt(timestamp, 0).earliest().map(|d| d.format(pattern).to_string())
}

/// The shown date for a local time text: the text itself, or `?` where
/// there is none.
pub open spec fn shown_date_spec(local_time: Option<Seq<char>>) -> Seq<char> {
    match local_time {
        Some(d) => d,
        None => "?"@,
    }
}

/// The shown date for what the local time formatting gave back: the text
/// itself, or `?` where the time stamp was out of range.
pub fn shown_date(local_time: Option<String>) -> (r: String)
    ensures
        r@ == shown_date_spec(
            match local_time {
                Some(d) => Some(d@),
                None => None,
            },
        ),
{
    match local_time {
        Some(d) => d,
        None => "?".to_owned(),
    }
}

/// The shown date of a record: its local time, or `?` for a time stamp out
/// of range. The local time depends on the machine's time zone, so the
/// text is not stated; [`shown_date`] states what is made of it.
fn record_date(record: &Record) -> (r: String)
    ensures
        shown_date_text(r@),
{
    shown_date(local_time_text(record.timestamp(), "%Y-%m-%d %H:%M:%S"))
}

/// The texts of entries of a list of records, each with its shown date.
pub open spec fn entry_text(
    format: HistoryFormat,
    prefix: Option<HistoryPrefix>,
    rec: RecordView,
    date: Seq<char>,
    index: nat,
    total: nat,
) -> Seq<char> {
    match prefix {
        Some(p) => prefixed_spec(record_text(format, rec, date), prefix_text(p, index, total)),
        None => record_text(format, rec, date),
    }
}

/// A list of records, one entry per line group, with their shown dates.
pub open spec fn records_text(
    format: HistoryFormat,
    prefix: Option<HistoryPrefix>,
    recs: Seq<RecordView>,
    dates: Seq<Seq<char>>,
) -> Seq<char> {
    join_spec(
        Seq::new(
            recs.len(),
            |i: int| entry_text(format, prefix, recs[i], dates[i], i as nat, recs.len()),
        ),
        "\n"@,
    )
}

/// The marker of entry `index` of `total` in an ordered list written out:
/// the number `index + 1` right-aligned to the width of `total`, then
/// `style` and a space.
pub open spec fn ordered_marker(style: char, index: nat, total: nat) -> Seq<char> {
    pad_left_spec(decimal_spec(index + 1), decimal_spec(total).len()) + seq![style] + " "@
}

/// An ordered entry written out: the marker before the first line of the
/// record's text, and every later line on a line of its own, indented by as
/// many spaces as the marker has bytes.
pub open spec fn ordered_entry(marker: Seq<char>, text: Seq<char>) -> Seq<char> {
    marker + lines_from(text, 0)[0] + indented_lines(
        lines_from(text, 0).drop_first(),
        crate::validation::byte_len(marker),
    )
}

/// A list of records with ordered markers is its entries joined by line
/// breaks, where entry `i` carries the marker of `i` of the list's length
/// before the first line of the record's text and indents its later lines
/// by the marker's width.
pub proof fn lemma_ordered_list_layout(
    format: HistoryFormat,
    style: char,
    recs: Seq<RecordView>,
    dates: Seq<Seq<char>>,
)
    ensures
        records_text(format, Some(HistoryPrefix::Ordered(style)), recs, dates) == join_spec(
            Seq::new(
                recs.len(),
                |i: int|
                    ordered_entry(
                        ordered_marker(style, i as nat, recs.len()),
                        record_text(format, recs[i], dates[i]),
                    ),
            ),
            "\n"@,
        ),
{
    assert(Seq::new(
        recs.len(),
        |i: int|
            entry_text(
                format,
                Some(HistoryPrefix::Ordered(style)),
                recs[i],
                dates[i],
                i as nat,
                recs.len(),
            ),
    ) =~= Seq::new(
        recs.len(),
        |i: int|
            ordered_entry(
                ordered_marker(style, i as nat, recs.len()),
                record_text(format, recs[i], dates[i]),
            ),
    ));
}

/// The history in words, given the undo and redo lists and their dates.
pub open spec fn history_text(
    format: HistoryFormat,
    prefix: Option<HistoryPrefix>,
    undo: Seq<RecordView>,
    undo_dates: Seq<Seq<char>>,
    redo: Seq<RecordView>,
    redo_dates: Seq<Seq<char>>,
) -> Seq<char> {
    if undo.len() == 0 && redo.len() == 0 {
        "There is nothing to undo or redo."@
    } else {
        (if undo.len() > 0 {
            "Undo history:\n"@ + records_text(format, prefix, undo, undo_dates) + "\n\n"@
        } else {
            "There is nothing to undo.\n\n"@
        }) + (if redo.len() > 0 {
            "Redo history:\n"@ + records_text(format, prefix, redo, redo_dates) + "\n"@
        } else {
            "There is nothing to redo.\n"@
        })
    }
}

/// Formats records as text.
#[derive(Debug, Clone, Copy)]
pub struct HistoryFormatter {
    format: HistoryFormat,
    prefix: Option<HistoryPrefix>,
}

impl HistoryFormatter {
    pub closed spec fn format_spec(&self) -> HistoryFormat {
        self.format
    }

    pub closed spec fn prefix_spec(&self) -> Option<HistoryPrefix> {
        self.prefix
    }

    /// Normal records, without entry markers.
    pub fn new() -> (r: Self)
        ensures
            r.format_spec() == HistoryFormat::Normal,
            r.prefix_spec() is None,
    {
        HistoryFormatter { format: HistoryFormat::Normal, prefix: None }
    }

    pub fn with_format(self, format: HistoryFormat) -> (r: Self)
        ensures
            r.format_spec() == format,
            r.prefix_spec() == self.prefix_spec(),
    {
        HistoryFormatter { format, prefix: self.prefix }
    }

    pub fn with_prefix(self, prefix: HistoryPrefix) -> (r: Self)
        ensures
            r.format_spec() == self.format_spec(),
            r.prefix_spec() == Some(prefix),
    {
        HistoryFormatter { format: self.format, prefix: Some(prefix) }
    }

    /// The name of the template a run used.
    pub fn format_template_name(metadata: &TemplateMetadata) -> (r: String)
        ensures
            r@ == template_name_spec(metadata@),
    {
        match metadata {
            TemplateMetadata::FileOrName(f) => f.clone(),
            TemplateMetadata::Script(_) => "script".to_owned(),
        }
    }

    /// A record in words, its time stamp shown as `date`.
    pub fn format_record_with_date(&self, record: &Record, date: &str) -> (r: String)
        ensures
            r@ == record_text(self.format_spec(), record@, date@),
    {
        let summary = RecordSummary::from_record(record);
        let mut out: Vec<char> = Vec::new();
        push_str(&mut out, date);
        push_str(&mut out, " [#");
        push_str(&mut out, summary.run_id());
        push_str(&mut out, "] (");
        let st = summary.text();
        push_str(&mut out, st.as_str());
        push_str(&mut out, ")");
        match self.format {
            HistoryFormat::Normal => string_from_chars(out.as_slice()),
            HistoryFormat::Verbose => {
                let mut v: Vec<char> = Vec::new();
                push_str(&mut v, "┌ ");
                push_all(&mut v, &out);
                push_str(&mut v, "\n└── ");
                push_str(&mut v, "'");
                let name = Self::format_template_name(record.metadata().template());
                push_str(&mut v, name.as_str());
                push_str(&mut v, "' => '");
                let args = record.metadata().arguments();
                let mut argv: Vec<String> = Vec::new();
                let mut k: usize = 0;
                while k < args.len()
                    invariant
                        k <= args@.len(),
                        argv@.len() == k,
                        forall|m: int| 0 <= m < k ==> (#[trigger] argv@[m])@ == args@[m]@,
                    decreases args.len() - k,
                {
                    argv.push(args[k].clone());
                    k = k + 1;
                }
                assert(crate::text::views_of(argv@) =~= record@.metadata.arguments);
                let sp = chars_of(" ");
                let joined = crate::text::join_strings(&argv, &sp);
                push_all(&mut v, &joined);
                push_str(&mut v, "'");
                string_from_chars(v.as_slice())
            },
        }
    }

    /// A record in words; the shown date depends on the local time zone.
    pub fn format_record(&self, record: &Record) -> (r: String)
        ensures
            exists|date: Seq<char>|
                shown_date_text(date) && r@ == #[trigger] record_text(
                    self.format_spec(),
                    record@,
                    date,
                ),
    {
        let date = record_date(record);
        self.format_record_with_date(record, date.as_str())
    }

    /// Entry `index` of `total`, with its marker when the formatter has one.
    pub fn format_record_entry_with_date(
        &self,
        record: &Record,
        date: &str,
        index: usize,
        total: usize,
    ) -> (r: String)
        requires
            index < usize::MAX,
        ensures
            r@ == entry_text(
                self.format_spec(),
                self.prefix_spec(),
                record@,
                date@,
                index as nat,
                total as nat,
            ),
    {
        let text = self.format_record_with_date(record, date);
        match &self.prefix {
            Some(p) => {
                let pt = p.format(index, total);
                proof {
                    reveal_strlit(" [#");
                }
                assert(text@.len() > 0);
                prefix_lines(text.as_str(), pt.as_str())
            },
            None => text,
        }
    }

    /// The records as text with the given dates, one entry each, joined by
    /// newlines; `None` for no records.
    pub fn format_records_with_dates(&self, records: &[Record], dates: &[String]) -> (r: Option<
        String,
    >)
        requires
            dates@.len() == records@.len(),
        ensures
            records@.len() == 0 ==> r is None,
            records@.len() > 0 ==> (r matches Some(t) && t@ == records_text(
                self.format_spec(),
                self.prefix_spec(),
                record_views(records@),
                dates@.map_values(|s: String| s@),
            )),
    {
        if records.len() == 0 {
            return None;
        }
        let ghost rv = record_views(records@);
        let ghost dv = dates@.map_values(|s: String| s@);
        let ghost entries = Seq::new(
            rv.len(),
            |i: int|
                entry_text(
                    self.format_spec(),
                    self.prefix_spec(),
                    rv[i],
                    dv[i],
                    i as nat,
                    rv.len(),
                ),
        );
        let mut parts: Vec<String> = Vec::new();
        let mut i: usize = 0;
        while i < records.len()
            invariant
                i <= records@.len(),
                dates@.len() == records@.len(),
                rv == record_views(records@),
                dv == dates@.map_values(|s: String| s@),
                entries.len() == records@.len(),
                entries == Seq::new(
                    rv.len(),
                    |i: int|
                        entry_text(
                            self.format_spec(),
                            self.prefix_spec(),
                            rv[i],
                            dv[i],
                            i as nat,
                            rv.len(),
                        ),
                ),
                crate::text::views_of(parts@) == entries.take(i as int),
            decreases records.len() - i,
        {
            assert(rv[i as int] == records@[i as int]@);
            assert(dv[i as int] == dates@[i as int]@);
            let e = self.format_record_entry_with_date(
                &records[i],
                dates[i].as_str(),
                i,
                records.len(),
            );
            let ghost before = crate::text::views_of(parts@);
            parts.push(e);
            assert(crate::text::views_of(parts@) =~= before.push(entries[i as int]));
            assert(entries.take(i + 1) =~= entries.take(i as int).push(entries[i as int]));
            i = i + 1;
        }
        assert(entries.take(records.len() as int) =~= entries);
        let nl = chars_of("\n");
        let joined = crate::text::join_strings(&parts, &nl);
        Some(string_from_chars(joined.as_slice()))
    }

    /// The records as text, one entry each, joined by newlines; `None` for
    /// no records. The shown dates depend on the local time zone.
    pub fn format_records(&self, records: &[Record]) -> (r: Option<String>)
        ensures
            records@.len() == 0 ==> r is None,
            records@.len() > 0 ==> r is Some && exists|dates: Seq<Seq<char>>|
                dates.len() == records@.len() && (forall|i: int|
                    0 <= i < dates.len() ==> shown_date_text(#[trigger] dates[i]))
                    && r->0@ == #[trigger] records_text(
                    self.format_spec(),
                    self.prefix_spec(),
                    record_views(records@),
                    dates,
                ),
    {
        let dates = record_dates(records);
        let r = self.format_records_with_dates(records, dates.as_slice());
        proof {
            if records@.len() > 0 {
                let d = dates@.map_values(|s: String| s@);
                assert(r->0@ == records_text(
                    self.format_spec(),
                    self.prefix_spec(),
                    record_views(records@),
                    d,
                ));
            }
        }
        r
    }

    /// The history in words, given the dates shown for the records to undo
    /// and to redo.
    pub fn format_history_with_dates(
        &self,
        history: &History,
        undo_dates: &[String],
        redo_dates: &[String],
    ) -> (r: Result<String, HistoryError>)
        requires
            undo_dates@.len() == undo_list(history@.records).len(),
            redo_dates@.len() == redo_list(history@.records).len(),
        ensures
            r matches Ok(t) && t@ == history_text(
                self.format_spec(),
                self.prefix_spec(),
                undo_list(history@.records),
                undo_dates@.map_values(|s: String| s@),
                redo_list(history@.records),
                redo_dates@.map_values(|s: String| s@),
            ),
    {
        let undo = match history.get_all_records_to_undo() {
            Ok(v) => v,
            Err(e) => {
                return Err(e);
            },
        };
        let undo_string = self.format_records_with_dates(undo.as_slice(), undo_dates);
        let redo = match history.get_all_records_to_redo() {
            Ok(v) => v,
            Err(e) => {
                return Err(e);
            },
        };
        let redo_string = self.format_records_with_dates(redo.as_slice(), redo_dates);
        match (undo_string, redo_string) {
            (None, None) => Ok("There is nothing to undo or redo.".to_owned()),
            (u, rd) => {
                let mut buffer: Vec<char> = Vec::new();
                match u {
                    Some(s) => {
                        push_str(&mut buffer, "Undo history:\n");
                        push_str(&mut buffer, s.as_str());
                        push_str(&mut buffer, "\n\n");
                    },
                    None => {
                        push_str(&mut buffer, "There is nothing to undo.\n\n");
                    },
                }
                match rd {
                    Some(s) => {
                        push_str(&mut buffer, "Redo history:\n");
                        push_str(&mut buffer, s.as_str());
                        push_str(&mut buffer, "\n");
                    },
                    None => {
                        push_str(&mut buffer, "There is nothing to redo.\n");
                    },
                }
                Ok(string_from_chars(buffer.as_slice()))
            },
        }
    }

    /// The history in words. The shown dates depend on the local time zone.
    pub fn format_history(&self, history: &History) -> (r: Result<String, HistoryError>)
        ensures
            r is Ok,
            r matches Ok(t) ==> exists|ud: Seq<Seq<char>>, rd: Seq<Seq<char>>|
                ud.len() == undo_list(history@.records).len() && rd.len() == redo_list(
                    history@.records,
                ).len() && (forall|i: int| 0 <= i < ud.len() ==> shown_date_text(#[trigger] ud[i]))
                    && (forall|i: int| 0 <= i < rd.len() ==> shown_date_text(#[trigger] rd[i]))
                    && t@ == #[trigger] history_text(
                    self.format_spec(),
                    self.prefix_spec(),
                    undo_list(history@.records),
                    ud,
                    redo_list(history@.records),
                    rd,
                ),
    {
        let undo = match history.get_all_records_to_undo() {
            Ok(v) => v,
            Err(e) => {
                return Err(e);
            },
        };
        let redo = match history.get_all_records_to_redo() {
            Ok(v) => v,
            Err(e) => {
                return Err(e);
            },
        };
        let ud = record_dates(undo.as_slice());
        let rd = record_dates(redo.as_slice());
        let r = self.format_history_with_dates(history, ud.as_slice(), rd.as_slice());
        proof {
            let udv = ud@.map_values(|s: String| s@);
            let rdv = rd@.map_values(|s: String| s@);
            assert(r->Ok_0@ == history_text(
                self.format_spec(),
                self.prefix_spec(),
                undo_list(history@.records),
                udv,
                redo_list(history@.records),
                rdv,
            ));
        }
        r
    }
}

/// The shown dates of records, in order.
fn record_dates(records: &[Record]) -> (r: Vec<String>)
    ensures
        r@.len() == records@.len(),
        forall|i: int| 0 <= i < r@.len() ==> shown_date_text(#[trigger] r@[i]@),
{
    let mut out: Vec<String> = Vec::new();
    let mut i: usize = 0;
    while i < records.len()
        invariant
            i <= records@.len(),
            out@.len() == i,
            forall|k: int| 0 <= k < out@.len() ==> shown_date_text(#[trigger] out@[k]@),
        decreases records.len() - i,
    {
        out.push(record_date(&records[i]));
        i = i + 1;
    }
    out
}

} // verus!
