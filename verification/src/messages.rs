//! Human-readable descriptions of rejected rename plans.

use crate::action::{RenameAction, RenameActionView};
use crate::text::{decimal_spec, push_all, push_str, string_from_chars, usize_to_decimal};
use crate::validation::{ValidationError, ValidationErrorView};
use vstd::prelude::*;

verus! {

/// The two lines naming an action's source and target.
pub open spec fn source_target_lines(a: RenameActionView) -> Seq<char> {
    "\tsource: "@ + a.source + "\n"@ + "\ttarget: "@ + a.target + "\n"@
}

/// One `source` line per action.
pub open spec fn source_lines(v: Seq<RenameActionView>) -> Seq<char>
    decreases v.len(),
{
    if v.len() == 0 {
        seq![]
    } else {
        source_lines(v.drop_last()) + "\tsource: "@ + v.last().source + "\n"@
    }
}

/// A `source` and a `target` line per action.
pub open spec fn source_target_blocks(v: Seq<RenameActionView>) -> Seq<char>
    decreases v.len(),
{
    if v.len() == 0 {
        seq![]
    } else {
        source_target_blocks(v.drop_last()) + source_target_lines(v.last())
    }
}

/// The characters, each on its own, joined by `', '`.
pub open spec fn quoted_list(cs: Seq<char>) -> Seq<char>
    decreases cs.len(),
{
    if cs.len() == 0 {
        seq![]
    } else if cs.len() == 1 {
        seq![cs[0]]
    } else {
        quoted_list(cs.drop_last()) + "', '"@ + seq![cs.last()]
    }
}

/// The part of the message that names the forbidden characters.
pub open spec fn forbidden_part(leading: Option<Seq<char>>, trailing: Option<Seq<char>>) -> Seq<char> {
    match (leading, trailing) {
        (Some(l), None) => "forbidden leading characters: '"@ + quoted_list(l) + "'"@,
        (None, Some(t)) => "forbidden trailing characters: '"@ + quoted_list(t) + "'"@,
        (Some(l), Some(t)) => "forbidden leading ('"@ + quoted_list(l) + "') and trailing ('"@
            + quoted_list(t) + "') characters."@,
        (None, None) => seq![],
    }
}

/// Whether a message can be written for `e`: a collision names at least
/// one action, and a forbidden-character error names at least one side.
pub open spec fn describable(e: ValidationErrorView) -> bool {
    match e {
        ValidationErrorView::Collision(v) => v.len() > 0,
        ValidationErrorView::ForbiddenCharacterLeadingOrTrailingPathComponent {
            forbidden_leading_characters,
            forbidden_trailing_characters,
            ..
        } => forbidden_leading_characters is Some || forbidden_trailing_characters is Some,
        _ => true,
    }
}

/// The message describing a validation error.
pub open spec fn message_spec(e: ValidationErrorView) -> Seq<char> {
    match e {
        ValidationErrorView::DoubleSeparators(a) => "The target file contains double path separators.\n"@
            + source_target_lines(a),
        ValidationErrorView::Collision(v) => "These files all evaluate to the same target.\n"@
            + source_lines(v) + "\ttarget: "@ + v[0].target + "\n"@,
        ValidationErrorView::CaseInsensitiveCollision(v) =>
            "These files evaluate to targets that differ only by case.\n"@ + source_target_blocks(v),
        ValidationErrorView::TargetExists(a) => "The target file already exists.\n"@
            + source_target_lines(a),
        ValidationErrorView::ReservedName { action, component } => "The '"@ + component
            + "'-component in the target path is a reserved Windows device name.\n"@
            + source_target_lines(action),
        ValidationErrorView::ForbiddenCharacterLeadingOrTrailingPathComponent {
            action,
            component,
            forbidden_leading_characters,
            forbidden_trailing_characters,
        } => "The '"@ + component + "'-component in the target path has  "@ + forbidden_part(
            forbidden_leading_characters,
            forbidden_trailing_characters,
        ) + source_target_lines(action),
        ValidationErrorView::PathTooLong { action, max_length, actual_length } =>
            "The target path is too long (max: "@ + decimal_spec(max_length) + ", actual: "@
                + decimal_spec(actual_length) + ") \n"@ + source_target_lines(action),
    }
}

fn push_source_target(out: &mut Vec<char>, a: &RenameAction)
    ensures
        final(out)@ == old(out)@ + source_target_lines(a@),
{
    let ghost start = out@;
    push_str(out, "\tsource: ");
    push_str(out, a.source());
    push_str(out, "\n");
    push_str(out, "\ttarget: ");
    push_str(out, a.target());
    push_str(out, "\n");
    assert(out@ =~= start + source_target_lines(a@));
}

fn push_quoted_list(out: &mut Vec<char>, cs: &Vec<char>)
    ensures
        final(out)@ == old(out)@ + quoted_list(cs@),
{
    let ghost start = out@;
    let mut i: usize = 0;
    while i < cs.len()
        invariant
            i <= cs.len(),
            out@ == start + quoted_list(cs@.take(i as int)),
        decreases cs.len() - i,
    {
        if i > 0 {
            push_str(out, "', '");
        }
        out.push(cs[i]);
        assert(cs@.take(i + 1).drop_last() =~= cs@.take(i as int));
        if i == 0 {
            assert(out@ =~= start + quoted_list(cs@.take(i + 1)));
        } else {
            assert(out@ =~= start + quoted_list(cs@.take(i + 1)));
        }
        i = i + 1;
    }
    assert(cs@.take(cs.len() as int) =~= cs@);
}

impl ValidationError {
    /// Whether a message can be written for this error.
    pub fn is_describable(&self) -> (r: bool)
        ensures
            r == describable(self@),
    {
        match self {
            ValidationError::Collision(v) => v.len() > 0,
            ValidationError::ForbiddenCharacterLeadingOrTrailingPathComponent {
                forbidden_leading_characters,
                forbidden_trailing_characters,
                ..
            } => forbidden_leading_characters.is_some() || forbidden_trailing_characters.is_some(),
            _ => true,
        }
    }

    /// The message describing this error, each line ending in a newline
    /// (the forbidden-character line has no newline before its
    /// source/target lines).
    pub fn message(&self) -> (r: String)
        requires
            describable(self@),
        ensures
            r@ == message_spec(self@),
    {
        let mut out: Vec<char> = Vec::new();
        match self {
            ValidationError::DoubleSeparators(a) => {
                push_str(&mut out, "The target file contains double path separators.\n");
                push_source_target(&mut out, a);
            },
            ValidationError::Collision(actions) => {
                push_str(&mut out, "These files all evaluate to the same target.\n");
                let ghost start = out@;
                let ghost av = self@->Collision_0;
                let mut i: usize = 0;
                while i < actions.len()
                    invariant
                        i <= actions@.len(),
                        av == crate::validation::action_views(actions@),
                        out@ == start + source_lines(av.take(i as int)),
                    decreases actions.len() - i,
                {
                    push_str(&mut out, "\tsource: ");
                    push_str(&mut out, actions[i].source());
                    push_str(&mut out, "\n");
                    assert(av.take(i + 1).drop_last() =~= av.take(i as int));
                    assert(av.take(i + 1).last() == actions@[i as int]@);
                    assert(out@ =~= start + source_lines(av.take(i + 1)));
                    i = i + 1;
                }
                assert(av.take(actions.len() as int) =~= av);
                assert(av[0] == actions@[0]@);
                push_str(&mut out, "\ttarget: ");
                push_str(&mut out, actions[0].target());
                push_str(&mut out, "\n");
            },
            ValidationError::CaseInsensitiveCollision(actions) => {
                push_str(&mut out, "These files evaluate to targets that differ only by case.\n");
                let ghost start = out@;
                let ghost av = self@->CaseInsensitiveCollision_0;
                let mut i: usize = 0;
                while i < actions.len()
                    invariant
                        i <= actions@.len(),
                        av == crate::validation::action_views(actions@),
                        out@ == start + source_target_blocks(av.take(i as int)),
                    decreases actions.len() - i,
                {
                    push_source_target(&mut out, &actions[i]);
                    assert(av.take(i + 1).drop_last() =~= av.take(i as int));
                    assert(av.take(i + 1).last() == actions@[i as int]@);
                    assert(out@ =~= start + source_target_blocks(av.take(i + 1)));
                    i = i + 1;
                }
                assert(av.take(actions.len() as int) =~= av);
            },
            ValidationError::TargetExists(a) => {
                push_str(&mut out, "The target file already exists.\n");
                push_source_target(&mut out, a);
            },
            ValidationError::ReservedName { action, component } => {
                push_str(&mut out, "The '");
                push_str(&mut out, component.as_str());
                push_str(
                    &mut out,
                    "'-component in the target path is a reserved Windows device name.\n",
                );
                push_source_target(&mut out, action);
            },
            ValidationError::ForbiddenCharacterLeadingOrTrailingPathComponent {
                action,
                component,
                forbidden_leading_characters,
                forbidden_trailing_characters,
            } => {
                push_str(&mut out, "The '");
                push_str(&mut out, component.as_str());
                push_str(&mut out, "'-component in the target path has  ");
                match (forbidden_leading_characters, forbidden_trailing_characters) {
                    (Some(l), None) => {
                        push_str(&mut out, "forbidden leading characters: '");
                        push_quoted_list(&mut out, l);
                        push_str(&mut out, "'");
                    },
                    (None, Some(t)) => {
                        push_str(&mut out, "forbidden trailing characters: '");
                        push_quoted_list(&mut out, t);
                        push_str(&mut out, "'");
                    },
                    (Some(l), Some(t)) => {
                        push_str(&mut out, "forbidden leading ('");
                        push_quoted_list(&mut out, l);
                        push_str(&mut out, "') and trailing ('");
                        push_quoted_list(&mut out, t);
                        push_str(&mut out, "') characters.");
                    },
                    (None, None) => {},
                }
                push_source_target(&mut out, action);
            },
            ValidationError::PathTooLong { action, max_length, actual_length } => {
                push_str(&mut out, "The target path is too long (max: ");
                let m = usize_to_decimal(*max_length);
                push_all(&mut out, &m);
                push_str(&mut out, ", actual: ");
                let a = usize_to_decimal(*actual_length);
                push_all(&mut out, &a);
                push_str(&mut out, ") \n");
                push_source_target(&mut out, action);
            },
        }
        let r = string_from_chars(out.as_slice());
        r
    }
}

} // verus!
