//! Sanitization of interpolated values and of path-like template arguments.

use crate::text::{chars_of, string_from_chars, trim_end_char_spec};
use crate::validation::{forbidden_characters, forbidden_table, ForbiddenCharacter};
use vstd::prelude::*;

verus! {

/// What the forbidden-character table says of `c`: `Some(replacement)`
/// when `c` is forbidden (`replacement` `None`: removed), `None` otherwise.
pub open spec fn table_lookup(t: Seq<(char, Option<char>)>, c: char) -> Option<Option<char>>
    decreases t.len(),
{
    if t.len() == 0 {
        None
    } else if t[0].0 == c {
        Some(t[0].1)
    } else {
        table_lookup(t.drop_first(), c)
    }
}

/// Whether `c` is one of the forbidden characters.
pub open spec fn is_forbidden(c: char) -> bool {
    table_lookup(forbidden_table(), c) is Some
}

/// Each character of `s` replaced as the table says (removed, replaced by
/// `-`, or kept).
pub open spec fn replace_forbidden_spec(s: Seq<char>) -> Seq<char>
    decreases s.len(),
{
    if s.len() == 0 {
        seq![]
    } else {
        replace_forbidden_spec(s.drop_last()) + match table_lookup(forbidden_table(), s.last()) {
            Some(Some(r)) => seq![r],
            Some(None) => seq![],
            None => seq![s.last()],
        }
    }
}

/// An interpolated value made safe for a file name: forbidden characters
/// replaced, then trailing periods removed.
pub open spec fn remove_forbidden_spec(s: Seq<char>) -> Seq<char> {
    trim_end_char_spec(replace_forbidden_spec(s), '.')
}

fn lookup(table: &Vec<ForbiddenCharacter>, c: char) -> (r: Option<Option<char>>)
    requires
        table@.len() == forbidden_table().len(),
        forall|i: int|
            0 <= i < table@.len() ==> (#[trigger] table@[i]).char_spec() == forbidden_table()[i].0
                && table@[i].replacement_spec() == forbidden_table()[i].1,
    ensures
        r == table_lookup(forbidden_table(), c),
{
    let ghost t = forbidden_table();
    assert(t.skip(0) =~= t);
    let mut i: usize = 0;
    while i < table.len()
        invariant
            t == forbidden_table(),
            i <= table@.len(),
            table@.len() == t.len(),
            forall|k: int|
                0 <= k < table@.len() ==> (#[trigger] table@[k]).char_spec() == t[k].0
                    && table@[k].replacement_spec() == t[k].1,
            table_lookup(t, c) == table_lookup(t.skip(i as int), c),
        decreases table.len() - i,
    {
        let entry = table[i];
        assert(t.skip(i as int)[0] == t[i as int]);
        assert(t.skip(i as int).drop_first() =~= t.skip(i + 1));
        if entry.char() == c {
            return Some(entry.replacement());
        }
        i = i + 1;
    }
    assert(t.skip(i as int) =~= Seq::<(char, Option<char>)>::empty());
    None
}

proof fn lemma_trim_end_char(s: Seq<char>, n: int, c: char)
    requires
        0 <= n <= s.len(),
        forall|k: int| n <= k < s.len() ==> #[trigger] s[k] == c,
        n == 0 || s[n - 1] != c,
    ensures
        trim_end_char_spec(s, c) == s.take(n),
    decreases s.len() - n,
{
    if n < s.len() {
        assert(s.last() == c);
        assert forall|k: int| n <= k < s.drop_last().len() implies #[trigger] s.drop_last()[k] == c by {
            assert(s.drop_last()[k] == s[k]);
        }
        if n > 0 {
            assert(s.drop_last()[n - 1] == s[n - 1]);
        }
        lemma_trim_end_char(s.drop_last(), n, c);
        assert(s.drop_last().take(n) =~= s.take(n));
    } else {
        assert(s.take(n) =~= s);
    }
}

/// Removes trailing occurrences of `c`.
pub fn trim_end_char(s: &Vec<char>, c: char) -> (r: Vec<char>)
    ensures
        r@ == trim_end_char_spec(s@, c),
{
    let mut end = s.len();
    while end > 0 && s[end - 1] == c
        invariant
            end <= s.len(),
            forall|k: int| end <= k < s.len() ==> #[trigger] s@[k] == c,
        decreases end,
    {
        end = end - 1;
    }
    proof {
        lemma_trim_end_char(s@, end as int, c);
    }
    crate::text::slice_chars(s, 0, end)
}

fn remove_forbidden_chars(s: &Vec<char>, table: &Vec<ForbiddenCharacter>) -> (r: Vec<char>)
    requires
        table@.len() == forbidden_table().len(),
        forall|i: int|
            0 <= i < table@.len() ==> (#[trigger] table@[i]).char_spec() == forbidden_table()[i].0
                && table@[i].replacement_spec() == forbidden_table()[i].1,
    ensures
        r@ == remove_forbidden_spec(s@),
{
    let mut out: Vec<char> = Vec::new();
    let mut i: usize = 0;
    while i < s.len()
        invariant
            i <= s@.len(),
            table@.len() == forbidden_table().len(),
            forall|k: int|
                0 <= k < table@.len() ==> (#[trigger] table@[k]).char_spec()
                    == forbidden_table()[k].0 && table@[k].replacement_spec()
                    == forbidden_table()[k].1,
            out@ == replace_forbidden_spec(s@.take(i as int)),
        decreases s.len() - i,
    {
        assert(s@.take(i + 1).drop_last() =~= s@.take(i as int));
        assert(s@.take(i + 1).last() == s@[i as int]);
        let c = s[i];
        match lookup(table, c) {
            Some(Some(r)) => {
                out.push(r);
            },
            Some(None) => {},
            None => {
                out.push(c);
            },
        }
        i = i + 1;
        assert(out@ =~= replace_forbidden_spec(s@.take(i as int)));
    }
    assert(s@.take(s@.len() as int) =~= s@);
    trim_end_char(&out, '.')
}

/// Makes an interpolated value safe for a file name: every forbidden
/// character is removed or replaced by `-`, then trailing periods are removed.
pub fn remove_forbidden_characters(value: &str) -> (r: String)
    ensures
        r@ == remove_forbidden_spec(value@),
{
    let table = forbidden_characters();
    let chars = chars_of(value);
    let out = remove_forbidden_chars(&chars, &table);
    string_from_chars(out.as_slice())
}

// ---------------------------------------------------------------------------
// Path arguments
// ---------------------------------------------------------------------------
pub open spec fn is_path_separator(c: char) -> bool {
    c == '/' || c == '\\'
}

/// The pieces of `s` between separators (std `split(['/', '\\'])`): always
/// at least one piece.
pub open spec fn split_on_separators(s: Seq<char>) -> Seq<Seq<char>>
    decreases s.len(),
{
    if s.len() == 0 {
        seq![seq![]]
    } else {
        let p = split_on_separators(s.drop_last());
        if is_path_separator(s.last()) {
            p.push(seq![])
        } else {
            p.update(p.len() - 1, p.last().push(s.last()))
        }
    }
}

proof fn lemma_split_nonempty(s: Seq<char>)
    ensures
        split_on_separators(s).len() >= 1,
    decreases s.len(),
{
    if s.len() > 0 {
        lemma_split_nonempty(s.drop_last());
    }
}

/// The non-empty pieces, each sanitized.
pub open spec fn sanitized_segments(pieces: Seq<Seq<char>>) -> Seq<Seq<char>>
    decreases pieces.len(),
{
    if pieces.len() == 0 {
        seq![]
    } else {
        sanitized_segments(pieces.drop_last()) + if pieces.last().len() > 0 {
            seq![remove_forbidden_spec(pieces.last())]
        } else {
            seq![]
        }
    }
}

/// A path argument normalized: its non-empty segments (split at `/` or
/// `\`), each sanitized, joined with `/` and followed by a `/`; empty when
/// there is no segment.
pub open spec fn sanitize_path_spec(raw: Seq<char>) -> Seq<char> {
    let segs = sanitized_segments(split_on_separators(raw));
    if segs.len() == 0 {
        seq![]
    } else {
        crate::text::join_spec(segs, seq!['/']) + seq!['/']
    }
}

/// Normalizes a path argument; see [`sanitize_path_spec`].
pub fn sanitize_path(raw: &str) -> (r: String)
    ensures
        r@ == sanitize_path_spec(raw@),
{
    let table = forbidden_characters();
    let chars = chars_of(raw);
    // Split into pieces.
    let mut pieces: Vec<Vec<char>> = Vec::new();
    pieces.push(Vec::new());
    let mut i: usize = 0;
    while i < chars.len()
        invariant
            i <= chars@.len(),
            pieces@.len() >= 1,
            pieces@.map_values(|p: Vec<char>| p@) == split_on_separators(chars@.take(i as int)),
        decreases chars.len() - i,
    {
        let ghost prev = pieces@.map_values(|p: Vec<char>| p@);
        assert(chars@.take(i + 1).drop_last() =~= chars@.take(i as int));
        assert(chars@.take(i + 1).last() == chars@[i as int]);
        let c = chars[i];
        if c == '/' || c == '\\' {
            pieces.push(Vec::new());
            assert(pieces@.map_values(|p: Vec<char>| p@) =~= prev.push(seq![]));
        } else {
            let last = pieces.len() - 1;
            let mut piece = pieces.pop().unwrap();
            piece.push(c);
            pieces.push(piece);
            assert(pieces@.map_values(|p: Vec<char>| p@) =~= prev.update(
                prev.len() - 1,
                prev.last().push(c),
            ));
        }
        i = i + 1;
    }
    assert(chars@.take(chars@.len() as int) =~= chars@);
    let ghost all = pieces@.map_values(|p: Vec<char>| p@);
    // Sanitize the non-empty pieces and join them.
    let mut out: Vec<char> = Vec::new();
    let mut count: usize = 0;
    let mut k: usize = 0;
    while k < pieces.len()
        invariant
            k <= pieces@.len(),
            all == pieces@.map_values(|p: Vec<char>| p@),
            table@.len() == forbidden_table().len(),
            forall|m: int|
                0 <= m < table@.len() ==> (#[trigger] table@[m]).char_spec()
                    == forbidden_table()[m].0 && table@[m].replacement_spec()
                    == forbidden_table()[m].1,
            count <= k,
            count == sanitized_segments(all.take(k as int)).len(),
            count == 0 ==> out@ == Seq::<char>::empty(),
            count > 0 ==> out@ == crate::text::join_spec(
                sanitized_segments(all.take(k as int)),
                seq!['/'],
            ),
        decreases pieces.len() - k,
    {
        assert(all.take(k + 1).drop_last() =~= all.take(k as int));
        assert(all.take(k + 1).last() == pieces@[k as int]@);
        if pieces[k].len() > 0 {
            let seg = remove_forbidden_chars(&pieces[k], &table);
            let ghost before = sanitized_segments(all.take(k as int));
            let ghost after = sanitized_segments(all.take(k + 1));
            assert(after =~= before.push(seg@));
            if count > 0 {
                out.push('/');
            }
            crate::text::push_all(&mut out, &seg);
            proof {
                assert(after.drop_last() =~= before);
                if count == 0 {
                    assert(out@ =~= crate::text::join_spec(after, seq!['/']));
                } else {
                    assert(out@ =~= crate::text::join_spec(after, seq!['/']));
                }
            }
            count = count + 1;
        }
        k = k + 1;
    }
    assert(all.take(pieces@.len() as int) =~= all);
    if count > 0 {
        out.push('/');
    }
    string_from_chars(out.as_slice())
}

// ---------------------------------------------------------------------------
// Laws
// ---------------------------------------------------------------------------
proof fn lemma_replace_has_no_forbidden(s: Seq<char>)
    ensures
        forall|k: int|
            0 <= k < replace_forbidden_spec(s).len() ==> !is_forbidden(
                #[trigger] replace_forbidden_spec(s)[k],
            ),
    decreases s.len(),
{
    if s.len() > 0 {
        lemma_replace_has_no_forbidden(s.drop_last());
        let p = replace_forbidden_spec(s.drop_last());
        let t = forbidden_table();
        assert(table_lookup(t, '-') is None) by {
            reveal_with_fuel(table_lookup, 11);
        }
        let c = s.last();
        assert(table_lookup(t, c) matches Some(Some(r)) ==> r == '-') by {
            reveal_with_fuel(table_lookup, 11);
        }
        assert forall|k: int| 0 <= k < replace_forbidden_spec(s).len() implies !is_forbidden(
            #[trigger] replace_forbidden_spec(s)[k],
        ) by {
            if k < p.len() {
                assert(replace_forbidden_spec(s)[k] == p[k]);
            }
        }
    }
}

proof fn lemma_trim_end_char_prefix(s: Seq<char>, c: char)
    ensures
        trim_end_char_spec(s, c).len() <= s.len(),
        forall|k: int|
            0 <= k < trim_end_char_spec(s, c).len() ==> #[trigger] trim_end_char_spec(s, c)[k]
                == s[k],
        trim_end_char_spec(s, c).len() == 0 || trim_end_char_spec(s, c).last() != c,
    decreases s.len(),
{
    if s.len() > 0 && s.last() == c {
        lemma_trim_end_char_prefix(s.drop_last(), c);
    }
}

/// A sanitized value contains no forbidden character and does not end
/// with a period.
pub proof fn lemma_sanitized_is_safe(value: Seq<char>)
    ensures
        forall|k: int|
            0 <= k < remove_forbidden_spec(value).len() ==> !is_forbidden(
                #[trigger] remove_forbidden_spec(value)[k],
            ),
        remove_forbidden_spec(value).len() == 0 || remove_forbidden_spec(value).last() != '.',
{
    let r = replace_forbidden_spec(value);
    lemma_replace_has_no_forbidden(value);
    lemma_trim_end_char_prefix(r, '.');
}

proof fn lemma_replace_identity(s: Seq<char>)
    requires
        forall|k: int| 0 <= k < s.len() ==> !is_forbidden(#[trigger] s[k]),
    ensures
        replace_forbidden_spec(s) == s,
    decreases s.len(),
{
    if s.len() > 0 {
        assert forall|k: int| 0 <= k < s.drop_last().len() implies !is_forbidden(
            #[trigger] s.drop_last()[k],
        ) by {
            assert(s.drop_last()[k] == s[k]);
        }
        lemma_replace_identity(s.drop_last());
        assert(!is_forbidden(s[s.len() - 1]));
        assert(s.drop_last().push(s.last()) =~= s);
    }
}

/// Sanitizing a value that is already safe leaves it unchanged; in
/// particular sanitizing twice is the same as sanitizing once.
pub proof fn lemma_sanitize_idempotent(value: Seq<char>)
    ensures
        remove_forbidden_spec(remove_forbidden_spec(value)) == remove_forbidden_spec(value),
{
    let once = remove_forbidden_spec(value);
    lemma_sanitized_is_safe(value);
    lemma_replace_identity(once);
    if once.len() > 0 {
        assert(trim_end_char_spec(once, '.') == once);
    }
}

} // verus!
