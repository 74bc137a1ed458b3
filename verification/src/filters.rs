//! The filters that templates can apply to values: `year`, which finds the
//! year in a date, and `zero_pad`, which pads a number with zeros.

use crate::text::{chars_of, push_all, push_str, string_from_chars};
use vstd::prelude::*;
use vstd::utf8::{decode_utf8, encode_utf8, is_char_boundary};

verus! {

// ---------------------------------------------------------------------------
// year
// ---------------------------------------------------------------------------
/// Name for what the `regex` crate answers when `pattern` is compiled and
/// its leftmost-first match is searched in `text`: `None` when the pattern
/// does not compile, else the matched text, if any.
pub uninterp spec fn regex_first_match(pattern: Seq<char>, text: Seq<char>) -> Option<
    Option<Seq<char>>,
>;

pub open spec fn opt_string_view(o: Option<String>) -> Option<Seq<char>> {
    match o {
        Some(s) => Some(s@),
        None => None,
    }
}

/// `regex::Regex::new(pattern)` followed by `Regex::find(text)`, the match
/// taken as text.
#[verifier::external_body]
fn regex_find(pattern: &str, text: &str) -> (r: Option<Option<String>>)
    ensures
        match r {
            Some(m) => regex_first_match(pattern@, text@) == Some(opt_string_view(m)),
            None => regex_first_match(pattern@, text@) is None,
        },
{
    match regex::Regex::new(pattern) {
        Ok(re) => Some(re.find(text).map(|m| m.as_str().to_owned())),
        Err(_) => None,
    }
}

/// A date written year first: four digits, two, two, joined by `-`.
pub open spec fn iso_date_pattern() -> Seq<char> {
    "(\\d{4})-\\d{2}-\\d{2}"@
}

/// A date written year last.
pub open spec fn year_last_date_pattern() -> Seq<char> {
    "\\d{2}-\\d{2}-(\\d{4})"@
}

/// Four digits.
pub open spec fn year_pattern() -> Seq<char> {
    "(\\d{4})"@
}

/// The text made of the first `n` bytes of the UTF-8 encoding of `s`.
pub open spec fn first_bytes(s: Seq<char>, n: int) -> Seq<char> {
    decode_utf8(encode_utf8(s).subrange(0, n))
}

/// The text made of the last `n` bytes of the UTF-8 encoding of `s`.
pub open spec fn last_bytes(s: Seq<char>, n: int) -> Seq<char> {
    decode_utf8(encode_utf8(s).subrange(encode_utf8(s).len() - n, encode_utf8(s).len() as int))
}

/// The year in a date, given the matches of the three date patterns: the
/// first four bytes of a year-first date, else the last four of a
/// year-last date, else any four digits; an error naming the date when
/// there are none.
pub open spec fn year_spec(
    iso: Option<Seq<char>>,
    year_last: Option<Seq<char>>,
    digits: Option<Seq<char>>,
    date: Seq<char>,
) -> Result<Seq<char>, Seq<char>> {
    match iso {
        Some(m) => Ok(first_bytes(m, 4)),
        None => match year_last {
            Some(m) => Ok(last_bytes(m, 4)),
            None => match digits {
                Some(m) => Ok(m),
                None => Err("Unable to parse date: "@ + date),
            },
        },
    }
}

/// Where the year is cut from a match: at a character boundary, as the
/// cut requires.
pub open spec fn year_cut_ok(iso: Option<Seq<char>>, year_last: Option<Seq<char>>) -> bool {
    match iso {
        Some(m) => is_char_boundary(encode_utf8(m), 4),
        None => match year_last {
            Some(m) => encode_utf8(m).len() >= 4 && is_char_boundary(
                encode_utf8(m),
                encode_utf8(m).len() - 4,
            ),
            None => true,
        },
    }
}

pub open spec fn opt_str_view(o: Option<&str>) -> Option<Seq<char>> {
    match o {
        Some(s) => Some(s@),
        None => None,
    }
}

/// The year in a date, from the matches of the three date patterns in it
/// (see [`year_spec`]).
pub fn year_from_matches(
    iso: Option<&str>,
    year_last: Option<&str>,
    digits: Option<&str>,
    date: &str,
) -> (r: Result<String, String>)
    requires
        year_cut_ok(opt_str_view(iso), opt_str_view(year_last)),
    ensures
        match year_spec(opt_str_view(iso), opt_str_view(year_last), opt_str_view(digits), date@) {
            Ok(y) => r matches Ok(s) && s@ == y,
            Err(m) => r matches Err(s) && s@ == m,
        },
{
    broadcast use vstd::utf8::encode_utf8_decode_utf8, vstd::slice::group_slice_axioms;

    match iso {
        Some(m) => {
            let (head, _) = m.split_at(4);
            assert(encode_utf8(head@) =~= encode_utf8(m@).subrange(0, 4));
            Ok(head.to_owned())
        },
        None => match year_last {
            Some(m) => {
                let n = m.as_bytes().len();
                assert(n == encode_utf8(m@).len());
                let (_, tail) = m.split_at(n - 4);
                assert(encode_utf8(tail@) =~= encode_utf8(m@).subrange(
                    encode_utf8(m@).len() - 4,
                    encode_utf8(m@).len() as int,
                ));
                Ok(tail.to_owned())
            },
            None => match digits {
                Some(m) => Ok(m.to_owned()),
                None => {
                    let mut v: Vec<char> = Vec::new();
                    push_str(&mut v, "Unable to parse date: ");
                    push_str(&mut v, date);
                    Err(string_from_chars(v.as_slice()))
                },
            },
        },
    }
}

/// The `year` filter: the year in `date` (see [`year_spec`]), with the
/// matches of the three date patterns found by `regex`. `None` when a
/// match cannot be cut at a character boundary (possible only for digits
/// outside ASCII, which `\d` also matches).
pub fn year(date: &str) -> (r: Option<Result<String, String>>)
    ensures
        ({
            let iso = regex_first_match(iso_date_pattern(), date@);
            let last = regex_first_match(year_last_date_pattern(), date@);
            let digits = regex_first_match(year_pattern(), date@);
            match (iso, last, digits) {
                (Some(i), Some(l), Some(d)) => if year_cut_ok(i, l) {
                    r matches Some(res) && match year_spec(i, l, d, date@) {
                        Ok(y) => res matches Ok(s) && s@ == y,
                        Err(m) => res matches Err(s) && s@ == m,
                    }
                } else {
                    r is None
                },
                _ => r is None,
            }
        }),
{
    broadcast use vstd::slice::group_slice_axioms;

    let iso = match regex_find("(\\d{4})-\\d{2}-\\d{2}", date) {
        Some(m) => m,
        None => {
            return None;
        },
    };
    let last = match regex_find("\\d{2}-\\d{2}-(\\d{4})", date) {
        Some(m) => m,
        None => {
            return None;
        },
    };
    let digits = match regex_find("(\\d{4})", date) {
        Some(m) => m,
        None => {
            return None;
        },
    };
    let iso_ref: Option<&str> = match &iso {
        Some(s) => Some(s.as_str()),
        None => None,
    };
    let last_ref: Option<&str> = match &last {
        Some(s) => Some(s.as_str()),
        None => None,
    };
    let digits_ref: Option<&str> = match &digits {
        Some(s) => Some(s.as_str()),
        None => None,
    };
    assert(opt_str_view(iso_ref) == opt_string_view(iso));
    assert(opt_str_view(last_ref) == opt_string_view(last));
    assert(opt_str_view(digits_ref) == opt_string_view(digits));
    let ok = match iso_ref {
        Some(m) => m.is_char_boundary(4),
        None => match last_ref {
            Some(m) => {
                let n = m.as_bytes().len();
                assert(n == encode_utf8(m@).len());
                n >= 4 && m.is_char_boundary(n - 4)
            },
            None => true,
        },
    };
    if !ok {
        return None;
    }
    Some(year_from_matches(iso_ref, last_ref, digits_ref, date))
}

// ---------------------------------------------------------------------------
// zero_pad
// ---------------------------------------------------------------------------
/// `text` right-aligned in a field of `width` characters, filled with `0`
/// (what `format!("{:0>width$}")` prints for a number).
pub open spec fn zero_pad_spec(text: Seq<char>, width: nat) -> Seq<char> {
    if text.len() >= width {
        text
    } else {
        Seq::new((width - text.len()) as nat, |i: int| '0') + text
    }
}

/// The `zero_pad` filter on the text of a number.
pub fn zero_pad(text: &str, width: usize) -> (r: String)
    ensures
        r@ == zero_pad_spec(text@, width as nat),
{
    let s = chars_of(text);
    let mut v: Vec<char> = Vec::new();
    if s.len() < width {
        let n = width - s.len();
        let mut i: usize = 0;
        while i < n
            invariant
                i <= n,
                v@ == Seq::new(i as nat, |k: int| '0'),
            decreases n - i,
        {
            v.push('0');
            i = i + 1;
            assert(v@ =~= Seq::new(i as nat, |k: int| '0'));
        }
    }
    push_all(&mut v, &s);
    assert(v@ =~= zero_pad_spec(text@, width as nat));
    string_from_chars(v.as_slice())
}

} // verus!
