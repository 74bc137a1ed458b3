//! The library's error type.

use crate::text::{decimal_spec, push_str, string_from_chars, usize_to_decimal};
use vstd::prelude::*;

verus! {

/// Errors of the renaming core. Errors that come from outside crates carry
/// their message as text.
#[derive(Debug)]
pub enum TFMTError {
    NoPrimaryTag(String),
    UnknownTag(String),
    NotADirectory(String),
    NotAFile(String),
    UnexpectedMoveError(String, String, String),
    FileTooLargeError(String),
    ForbiddenCharacterError(String),
    FrontmatterParse(String, String),
    UnterminatedFrontmatter(String),
    DuplicateArgumentName(String, String),
    MissingRequiredArgument(String, String, String),
    TooManyArguments(String, usize, usize),
    InvalidArgumentValue(String, String, String, String),
    IndexedArgsWithFrontmatter(String),
    Camino(String),
    Ignore(String),
    Io(String),
    Lofty(String, String),
    Minijinja(String),
}

/// Mathematical view of a [`TFMTError`].
pub enum TFMTErrorView {
    NoPrimaryTag(Seq<char>),
    UnknownTag(Seq<char>),
    NotADirectory(Seq<char>),
    NotAFile(Seq<char>),
    UnexpectedMoveError(Seq<char>, Seq<char>, Seq<char>),
    FileTooLargeError(Seq<char>),
    ForbiddenCharacterError(Seq<char>),
    FrontmatterParse(Seq<char>, Seq<char>),
    UnterminatedFrontmatter(Seq<char>),
    DuplicateArgumentName(Seq<char>, Seq<char>),
    MissingRequiredArgument(Seq<char>, Seq<char>, Seq<char>),
    TooManyArguments(Seq<char>, nat, nat),
    InvalidArgumentValue(Seq<char>, Seq<char>, Seq<char>, Seq<char>),
    IndexedArgsWithFrontmatter(Seq<char>),
    Camino(Seq<char>),
    Ignore(Seq<char>),
    Io(Seq<char>),
    Lofty(Seq<char>, Seq<char>),
    Minijinja(Seq<char>),
}

impl View for TFMTError {
    type V = TFMTErrorView;

    open spec fn view(&self) -> TFMTErrorView {
        match self {
            TFMTError::NoPrimaryTag(a) => TFMTErrorView::NoPrimaryTag(a@),
            TFMTError::UnknownTag(a) => TFMTErrorView::UnknownTag(a@),
            TFMTError::NotADirectory(a) => TFMTErrorView::NotADirectory(a@),
            TFMTError::NotAFile(a) => TFMTErrorView::NotAFile(a@),
            TFMTError::UnexpectedMoveError(a, b, c) => TFMTErrorView::UnexpectedMoveError(
                a@,
                b@,
                c@,
            ),
            TFMTError::FileTooLargeError(a) => TFMTErrorView::FileTooLargeError(a@),
            TFMTError::ForbiddenCharacterError(a) => TFMTErrorView::ForbiddenCharacterError(a@),
            TFMTError::FrontmatterParse(a, b) => TFMTErrorView::FrontmatterParse(a@, b@),
            TFMTError::UnterminatedFrontmatter(a) => TFMTErrorView::UnterminatedFrontmatter(a@),
            TFMTError::DuplicateArgumentName(a, b) => TFMTErrorView::DuplicateArgumentName(a@, b@),
            TFMTError::MissingRequiredArgument(a, b, c) => TFMTErrorView::MissingRequiredArgument(
                a@,
                b@,
                c@,
            ),
            TFMTError::TooManyArguments(a, b, c) => TFMTErrorView::TooManyArguments(
                a@,
                *b as nat,
                *c as nat,
            ),
            TFMTError::InvalidArgumentValue(a, b, c, d) => TFMTErrorView::InvalidArgumentValue(
                a@,
                b@,
                c@,
                d@,
            ),
            TFMTError::IndexedArgsWithFrontmatter(a) => TFMTErrorView::IndexedArgsWithFrontmatter(
                a@,
            ),
            TFMTError::Camino(a) => TFMTErrorView::Camino(a@),
            TFMTError::Ignore(a) => TFMTErrorView::Ignore(a@),
            TFMTError::Io(a) => TFMTErrorView::Io(a@),
            TFMTError::Lofty(a, b) => TFMTErrorView::Lofty(a@, b@),
            TFMTError::Minijinja(a) => TFMTErrorView::Minijinja(a@),
        }
    }
}

/// The message describing an error.
pub open spec fn error_message_spec(e: TFMTErrorView) -> Seq<char> {
    match e {
        TFMTErrorView::NoPrimaryTag(_) => "No primary tag"@,
        TFMTErrorView::UnknownTag(t) => "Unknown tag: '"@ + t + "'"@,
        TFMTErrorView::NotADirectory(p) => "Path exists but is not a directory: "@ + p,
        TFMTErrorView::NotAFile(p) => "Path exists but is not a file: "@ + p,
        TFMTErrorView::UnexpectedMoveError(a, b, c) => "Unexpected error while trying to move "@
            + a + " to "@ + b + ": "@ + c + " "@,
        TFMTErrorView::FileTooLargeError(p) => "File is too big for checksum: "@ + p,
        TFMTErrorView::ForbiddenCharacterError(c) =>
            "Interpolated value contains a forbidden character: '"@ + c + "'"@,
        TFMTErrorView::FrontmatterParse(t, m) => "Failed to parse frontmatter TOML in template '"@
            + t + "': "@ + m,
        TFMTErrorView::UnterminatedFrontmatter(t) => "Unterminated frontmatter block in template '"@
            + t + "': missing closing '+++'"@,
        TFMTErrorView::DuplicateArgumentName(t, a) => "Duplicate argument name '"@ + a
            + "' declared in frontmatter of template '"@ + t + "'"@,
        TFMTErrorView::MissingRequiredArgument(t, a, m) => "Missing required argument '"@ + a
            + "' for template '"@ + t + "': "@ + m,
        TFMTErrorView::TooManyArguments(t, max, given) => "Template '"@ + t + "' accepts at most "@
            + decimal_spec(max) + " argument(s), but "@ + decimal_spec(given) + " were supplied"@,
        TFMTErrorView::InvalidArgumentValue(t, a, m, v) => "Argument '"@ + a + "' for template '"@
            + t + "' has an invalid value '"@ + v + "': "@ + m,
        TFMTErrorView::IndexedArgsWithFrontmatter(t) => "Template '"@ + t
            + "' uses indexed `args[N]` access, which is not allowed once a frontmatter block is present"@,
        TFMTErrorView::Camino(m) => m,
        TFMTErrorView::Ignore(m) => m,
        TFMTErrorView::Io(m) => m,
        TFMTErrorView::Lofty(p, m) => "Error while reading file: "@ + p + "\n"@ + m,
        TFMTErrorView::Minijinja(m) => m,
    }
}

impl TFMTError {
    /// The message describing the error.
    pub fn message(&self) -> (r: String)
        ensures
            r@ == error_message_spec(self@),
    {
        match self {
            TFMTError::NoPrimaryTag(_) => "No primary tag".to_owned(),
            TFMTError::UnknownTag(t) => {
                let mut out: Vec<char> = Vec::new();
                push_str(&mut out, "Unknown tag: '");
                push_str(&mut out, t.as_str());
                push_str(&mut out, "'");
                string_from_chars(out.as_slice())
            },
            TFMTError::NotADirectory(p) => {
                let mut out: Vec<char> = Vec::new();
                push_str(&mut out, "Path exists but is not a directory: ");
                push_str(&mut out, p.as_str());
                string_from_chars(out.as_slice())
            },
            TFMTError::NotAFile(p) => {
                let mut out: Vec<char> = Vec::new();
                push_str(&mut out, "Path exists but is not a file: ");
                push_str(&mut out, p.as_str());
                string_from_chars(out.as_slice())
            },
            TFMTError::UnexpectedMoveError(a, b, c) => {
                let mut out: Vec<char> = Vec::new();
                push_str(&mut out, "Unexpected error while trying to move ");
                push_str(&mut out, a.as_str());
                push_str(&mut out, " to ");
                push_str(&mut out, b.as_str());
                push_str(&mut out, ": ");
                push_str(&mut out, c.as_str());
                push_str(&mut out, " ");
                string_from_chars(out.as_slice())
            },
            TFMTError::FileTooLargeError(p) => {
                let mut out: Vec<char> = Vec::new();
                push_str(&mut out, "File is too big for checksum: ");
                push_str(&mut out, p.as_str());
                string_from_chars(out.as_slice())
            },
            TFMTError::ForbiddenCharacterError(c) => {
                let mut out: Vec<char> = Vec::new();
                push_str(&mut out, "Interpolated value contains a forbidden character: '");
                push_str(&mut out, c.as_str());
                push_str(&mut out, "'");
                string_from_chars(out.as_slice())
            },
            TFMTError::FrontmatterParse(t, m) => {
                let mut out: Vec<char> = Vec::new();
                push_str(&mut out, "Failed to parse frontmatter TOML in template '");
                push_str(&mut out, t.as_str());
                push_str(&mut out, "': ");
                push_str(&mut out, m.as_str());
                string_from_chars(out.as_slice())
            },
            TFMTError::UnterminatedFrontmatter(t) => {
                let mut out: Vec<char> = Vec::new();
                push_str(&mut out, "Unterminated frontmatter block in template '");
                push_str(&mut out, t.as_str());
                push_str(&mut out, "': missing closing '+++'");
                string_from_chars(out.as_slice())
            },
            TFMTError::DuplicateArgumentName(t, a) => {
                let mut out: Vec<char> = Vec::new();
                push_str(&mut out, "Duplicate argument name '");
                push_str(&mut out, a.as_str());
                push_str(&mut out, "' declared in frontmatter of template '");
                push_str(&mut out, t.as_str());
                push_str(&mut out, "'");
                string_from_chars(out.as_slice())
            },
            TFMTError::MissingRequiredArgument(t, a, m) => {
                let mut out: Vec<char> = Vec::new();
                push_str(&mut out, "Missing required argument '");
                push_str(&mut out, a.as_str());
                push_str(&mut out, "' for template '");
                push_str(&mut out, t.as_str());
                push_str(&mut out, "': ");
                push_str(&mut out, m.as_str());
                string_from_chars(out.as_slice())
            },
            TFMTError::TooManyArguments(t, max, given) => {
                let mx = string_from_chars(usize_to_decimal(*max).as_slice());
                let gv = string_from_chars(usize_to_decimal(*given).as_slice());
                {
                let mut out: Vec<char> = Vec::new();
                push_str(&mut out, "Template '");
                push_str(&mut out, t.as_str());
                push_str(&mut out, "' accepts at most ");
                push_str(&mut out, mx.as_str());
                push_str(&mut out, " argument(s), but ");
                push_str(&mut out, gv.as_str());
                push_str(&mut out, " were supplied");
                string_from_chars(out.as_slice())
            }
            },
            TFMTError::InvalidArgumentValue(t, a, m, v) => {
                let mut out: Vec<char> = Vec::new();
                push_str(&mut out, "Argument '");
                push_str(&mut out, a.as_str());
                push_str(&mut out, "' for template '");
                push_str(&mut out, t.as_str());
                push_str(&mut out, "' has an invalid value '");
                push_str(&mut out, v.as_str());
                push_str(&mut out, "': ");
                push_str(&mut out, m.as_str());
                string_from_chars(out.as_slice())
            },
            TFMTError::IndexedArgsWithFrontmatter(t) => {
                let mut out: Vec<char> = Vec::new();
                push_str(&mut out, "Template '");
                push_str(&mut out, t.as_str());
                push_str(&mut out, "' uses indexed `args[N]` access, which is not allowed once a frontmatter block is present");
                string_from_chars(out.as_slice())
            },
            TFMTError::Camino(m) => m.clone(),
            TFMTError::Ignore(m) => m.clone(),
            TFMTError::Io(m) => m.clone(),
            TFMTError::Lofty(p, m) => {
                let mut out: Vec<char> = Vec::new();
                push_str(&mut out, "Error while reading file: ");
                push_str(&mut out, p.as_str());
                push_str(&mut out, "\n");
                push_str(&mut out, m.as_str());
                string_from_chars(out.as_slice())
            },
            TFMTError::Minijinja(m) => m.clone(),
        }
    }
}

} // verus!
