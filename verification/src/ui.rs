//! Text of the terminal interface: item names by amount, the preview list
//! of a run, and the answers a confirmation prompt accepts.

use crate::text::{
    chars_eq, chars_of, decimal_spec, pad_left, pad_left_spec, push_all, push_str,
    string_from_chars, to_lowercase, trim_chars, trim_spec, unicode_lowercase, usize_to_decimal,
};
use vstd::prelude::*;

verus! {

/// The singular and (optionally) plural name of the items being listed.
#[derive(Debug)]
pub struct ItemName {
    single: String,
    plural: Option<String>,
}

/// Mathematical view of an [`ItemName`].
pub struct ItemNameView {
    pub single: Seq<char>,
    pub plural: Option<Seq<char>>,
}

impl View for ItemName {
    type V = ItemNameView;

    closed spec fn view(&self) -> ItemNameView {
        ItemNameView {
            single: self.single@,
            plural: match self.plural {
                Some(p) => Some(p@),
                None => None,
            },
        }
    }
}

/// The plural: the given one, else the singular with an `s`.
pub open spec fn plural_spec(n: ItemNameView) -> Seq<char> {
    match n.plural {
        Some(p) => p,
        None => n.single + "s"@,
    }
}

/// The name for `amount` items: singular for exactly one, else plural.
pub open spec fn by_amount_spec(n: ItemNameView, amount: nat) -> Seq<char> {
    if amount == 1 {
        n.single
    } else {
        plural_spec(n)
    }
}

impl ItemName {
    /// A name whose plural adds an `s`.
    pub fn simple(single: &str) -> (r: Self)
        ensures
            r@ == (ItemNameView { single: single@, plural: None }),
    {
        ItemName { single: single.to_owned(), plural: None }
    }

    pub fn new(single: &str, plural: &str) -> (r: Self)
        ensures
            r@ == (ItemNameView { single: single@, plural: Some(plural@) }),
    {
        ItemName { single: single.to_owned(), plural: Some(plural.to_owned()) }
    }

    pub fn single(&self) -> (r: String)
        ensures
            r@ == self@.single,
    {
        self.single.clone()
    }

    pub fn plural(&self) -> (r: String)
        ensures
            r@ == plural_spec(self@),
    {
        match &self.plural {
            Some(p) => p.clone(),
            None => {
                let mut v = chars_of(self.single.as_str());
                push_str(&mut v, "s");
                string_from_chars(v.as_slice())
            },
        }
    }

    pub fn by_amount(&self, amount: usize) -> (r: String)
        ensures
            r@ == by_amount_spec(self@, amount as nat),
    {
        if amount == 1 {
            self.single()
        } else {
            self.plural()
        }
    }
}

impl Default for ItemName {
    fn default() -> (r: Self)
        ensures
            r@ == (ItemNameView { single: "item"@, plural: None }),
    {
        ItemName { single: "item".to_owned(), plural: None }
    }
}

/// How many items a preview shows.
#[derive(Debug, Clone, Copy, PartialEq, Eq, Structural)]
pub enum PreviewListSize {
    Small,
    Medium,
    Large,
}

/// The size fitting a terminal of `columns` rows or columns.
pub open spec fn list_size_for(columns: nat) -> PreviewListSize {
    if columns < 24 {
        PreviewListSize::Small
    } else if columns < 36 {
        PreviewListSize::Medium
    } else {
        PreviewListSize::Large
    }
}

pub open spec fn preview_amount_spec(size: PreviewListSize) -> nat {
    match size {
        PreviewListSize::Small => 8,
        PreviewListSize::Medium => 12,
        PreviewListSize::Large => 16,
    }
}

/// The size named by a (case-insensitive) option.
pub open spec fn list_size_named(lower: Seq<char>) -> Option<PreviewListSize> {
    if lower == "small"@ || lower == "sm"@ || lower == "s"@ {
        Some(PreviewListSize::Small)
    } else if lower == "medium"@ || lower == "md"@ || lower == "m"@ {
        Some(PreviewListSize::Medium)
    } else if lower == "large"@ || lower == "lg"@ || lower == "l"@ {
        Some(PreviewListSize::Large)
    } else {
        None
    }
}

/// A text that names no preview list size.
#[derive(Debug, Clone, Copy, PartialEq, Eq)]
pub struct ParsePreviewListSizeError;

impl ParsePreviewListSizeError {
    pub fn message(&self) -> (r: &'static str)
        ensures
            r@ == "Valid options: small, medium, large"@,
    {
        "Valid options: small, medium, large"
    }
}

fn eq_literal(v: &Vec<char>, lit: &str) -> (r: bool)
    ensures
        r == (v@ == lit@),
{
    let l = chars_of(lit);
    chars_eq(v, &l)
}

impl PreviewListSize {
    pub fn new(columns: usize) -> (r: Self)
        ensures
            r == list_size_for(columns as nat),
    {
        if columns < 24 {
            PreviewListSize::Small
        } else if columns < 36 {
            PreviewListSize::Medium
        } else {
            PreviewListSize::Large
        }
    }

    pub fn preview_amount(self) -> (r: usize)
        ensures
            r as nat == preview_amount_spec(self),
    {
        match self {
            PreviewListSize::Small => 8,
            PreviewListSize::Medium => 12,
            PreviewListSize::Large => 16,
        }
    }

    /// Parses `small`/`sm`/`s`, `medium`/`md`/`m` or `large`/`lg`/`l`,
    /// ignoring case.
    pub fn parse(s: &str) -> (r: Result<Self, ParsePreviewListSizeError>)
        ensures
            match list_size_named(unicode_lowercase(s@)) {
                Some(v) => r == Ok::<PreviewListSize, ParsePreviewListSizeError>(v),
                None => r is Err,
            },
    {
        let lower = to_lowercase(s);
        let l = chars_of(lower.as_str());
        if eq_literal(&l, "small") || eq_literal(&l, "sm") || eq_literal(&l, "s") {
            Ok(PreviewListSize::Small)
        } else if eq_literal(&l, "medium") || eq_literal(&l, "md") || eq_literal(&l, "m") {
            Ok(PreviewListSize::Medium)
        } else if eq_literal(&l, "large") || eq_literal(&l, "lg") || eq_literal(&l, "l") {
            Ok(PreviewListSize::Large)
        } else {
            Err(ParsePreviewListSizeError)
        }
    }
}

impl core::str::FromStr for PreviewListSize {
    type Err = ParsePreviewListSizeError;

    /// The same as [`PreviewListSize::parse`].
    fn from_str(s: &str) -> (r: Result<Self, ParsePreviewListSizeError>)
        ensures
            match list_size_named(unicode_lowercase(s@)) {
                Some(v) => r == Ok::<PreviewListSize, ParsePreviewListSizeError>(v),
                None => r is Err,
            },
    {
        PreviewListSize::parse(s)
    }
}

/// A numbered preview of a list of items: all of them when they fit,
/// else a sample.
#[derive(Debug)]
pub struct PreviewList {
    items: Vec<String>,
    item_name: ItemName,
    list_size: PreviewListSize,
}

/// Mathematical view of a [`PreviewList`].
pub struct PreviewListView {
    pub items: Seq<Seq<char>>,
    pub item_name: ItemNameView,
    pub list_size: PreviewListSize,
}

impl View for PreviewList {
    type V = PreviewListView;

    closed spec fn view(&self) -> PreviewListView {
        PreviewListView {
            items: self.items@.map_values(|s: String| s@),
            item_name: self.item_name@,
            list_size: self.list_size,
        }
    }
}

/// Whether every item fits in the preview.
pub open spec fn can_preview_all_spec(p: PreviewListView) -> bool {
    p.items.len() <= preview_amount_spec(p.list_size)
}

/// The title of a preview.
pub open spec fn title_spec(p: PreviewListView) -> Seq<char> {
    let total = p.items.len();
    if can_preview_all_spec(p) {
        "Previewing "@ + decimal_spec(total) + " "@ + by_amount_spec(p.item_name, total)
    } else {
        "Previewing "@ + decimal_spec(preview_amount_spec(p.list_size)) + " of "@ + decimal_spec(
            total,
        ) + " "@ + by_amount_spec(p.item_name, total)
    }
}

/// The line of the item at position `i` (numbered from one, right-aligned
/// to the width of the total).
pub open spec fn preview_line(p: PreviewListView, i: int) -> Seq<char> {
    pad_left_spec(decimal_spec((i + 1) as nat), decimal_spec(p.items.len()).len()) + ") "@
        + p.items[i] + "\n"@
}

/// The lines of the items among the first `n` whose position is shown.
pub open spec fn preview_lines(p: PreviewListView, shown: Seq<usize>, n: int) -> Seq<char>
    decreases n,
{
    if n <= 0 {
        seq![]
    } else {
        preview_lines(p, shown, n - 1) + if can_preview_all_spec(p) || shown.contains(
            (n - 1) as usize,
        ) {
            preview_line(p, n - 1)
        } else {
            seq![]
        }
    }
}

impl PreviewList {
    pub fn new(items: Vec<String>, list_size: PreviewListSize) -> (r: Self)
        ensures
            r@.items == items@.map_values(|s: String| s@),
            r@.item_name == (ItemNameView { single: "item"@, plural: None }),
            r@.list_size == list_size,
    {
        PreviewList { items, item_name: ItemName::default(), list_size }
    }

    pub fn with_item_name(self, item_name: ItemName) -> (r: Self)
        ensures
            r@ == (PreviewListView { item_name: item_name@, ..self@ }),
    {
        PreviewList { items: self.items, item_name, list_size: self.list_size }
    }

    pub fn preview_amount(&self) -> (r: usize)
        ensures
            r as nat == preview_amount_spec(self@.list_size),
    {
        self.list_size.preview_amount()
    }

    pub fn total(&self) -> (r: usize)
        ensures
            r as nat == self@.items.len(),
    {
        self.items.len()
    }

    pub fn can_preview_all(&self) -> (r: bool)
        ensures
            r == can_preview_all_spec(self@),
    {
        self.total() <= self.preview_amount()
    }

    pub fn title(&self) -> (r: String)
        ensures
            r@ == title_spec(self@),
    {
        let total = self.total();
        let mut out: Vec<char> = Vec::new();
        push_str(&mut out, "Previewing ");
        if self.can_preview_all() {
            let t = usize_to_decimal(total);
            push_all(&mut out, &t);
        } else {
            let a = usize_to_decimal(self.preview_amount());
            push_all(&mut out, &a);
            push_str(&mut out, " of ");
            let t = usize_to_decimal(total);
            push_all(&mut out, &t);
        }
        push_str(&mut out, " ");
        let name = self.item_name.by_amount(total);
        push_str(&mut out, name.as_str());
        string_from_chars(out.as_slice())
    }

    /// The numbered lines of the previewed items: every item when all fit,
    /// else those whose position is in `sampled`.
    pub fn render(&self, sampled: &[usize]) -> (r: String)
        ensures
            r@ == preview_lines(self@, sampled@, self@.items.len() as int),
    {
        let ghost p = self@;
        let total = self.items.len();
        let width_digits = usize_to_decimal(total);
        let width = width_digits.len();
        let all = self.can_preview_all();
        let mut out: Vec<char> = Vec::new();
        let mut i: usize = 0;
        while i < total
            invariant
                total == self.items@.len(),
                p == self@,
                width as nat == decimal_spec(total as nat).len(),
                all == can_preview_all_spec(p),
                i <= total,
                out@ == preview_lines(p, sampled@, i as int),
            decreases total - i,
        {
            let mut shown = all;
            if !shown {
                let mut k: usize = 0;
                while k < sampled.len()
                    invariant
                        k <= sampled@.len(),
                        shown ==> sampled@.contains(i),
                        !shown ==> forall|m: int| 0 <= m < k ==> sampled@[m] != i,
                    decreases sampled.len() - k,
                {
                    if sampled[k] == i {
                        shown = true;
                    }
                    k = k + 1;
                }
                assert(!shown ==> !sampled@.contains(i));
            }
            let ghost before = out@;
            if shown {
                let num = usize_to_decimal(i + 1);
                let padded = pad_left(&num, width);
                push_all(&mut out, &padded);
                push_str(&mut out, ") ");
                assert(p.items[i as int] == self.items@[i as int]@);
                push_str(&mut out, self.items[i].as_str());
                push_str(&mut out, "\n");
                assert(out@ =~= before + preview_line(p, i as int));
            } else {
                assert(out@ =~= before + Seq::<char>::empty());
            }
            i = i + 1;
        }
        string_from_chars(out.as_slice())
    }
}

/// A yes/no question with an optional default answer.
#[derive(Debug)]
pub struct ConfirmationPrompt {
    prompt: String,
    default: Option<bool>,
}

/// Mathematical view of a [`ConfirmationPrompt`].
pub struct ConfirmationPromptView {
    pub prompt: Seq<char>,
    pub default: Option<bool>,
}

impl View for ConfirmationPrompt {
    type V = ConfirmationPromptView;

    closed spec fn view(&self) -> ConfirmationPromptView {
        ConfirmationPromptView { prompt: self.prompt@, default: self.default }
    }
}

/// The answer a reply gives: `y`/`yes` and `n`/`no` (trimmed, ignoring
/// case), or the default for an empty reply; `None` asks again.
pub open spec fn answer_spec(default: Option<bool>, reply: Seq<char>) -> Option<bool> {
    let a = unicode_lowercase(trim_spec(reply));
    if a == "y"@ || a == "yes"@ {
        Some(true)
    } else if a == "n"@ || a == "no"@ {
        Some(false)
    } else if a.len() == 0 && default is Some {
        default
    } else {
        None
    }
}

impl ConfirmationPrompt {
    /// What is asked again after a reply that is not an answer.
    pub fn required_prompt() -> (r: &'static str)
        ensures
            r@ == "Please enter 'y' or 'n'"@,
    {
        "Please enter 'y' or 'n'"
    }

    /// A question whose default answer is no.
    pub fn new(prompt: &str) -> (r: Self)
        ensures
            r@ == (ConfirmationPromptView { prompt: prompt@, default: Some(false) }),
    {
        ConfirmationPrompt { prompt: prompt.to_owned(), default: Some(false) }
    }

    pub fn prompt_text(&self) -> (r: &str)
        ensures
            r@ == self@.prompt,
    {
        self.prompt.as_str()
    }

    /// The options shown after the question, the default in capitals.
    pub fn get_options(&self) -> (r: &'static str)
        ensures
            self@.default == Some(true) ==> r@ == "(Y/n)"@,
            self@.default == Some(false) ==> r@ == "(y/N)"@,
            self@.default is None ==> r@ == "(y/n)"@,
    {
        match self.default {
            Some(true) => "(Y/n)",
            Some(false) => "(y/N)",
            None => "(y/n)",
        }
    }

    /// The answer that `reply` gives, or `None` when it is not an answer.
    pub fn interpret_answer(&self, reply: &str) -> (r: Option<bool>)
        ensures
            r == answer_spec(self@.default, reply@),
    {
        let chars = chars_of(reply);
        let trimmed = trim_chars(&chars);
        let t = string_from_chars(trimmed.as_slice());
        let lower = to_lowercase(t.as_str());
        let a = chars_of(lower.as_str());
        if eq_literal(&a, "y") || eq_literal(&a, "yes") {
            Some(true)
        } else if eq_literal(&a, "n") || eq_literal(&a, "no") {
            Some(false)
        } else if a.len() == 0 && self.default.is_some() {
            self.default
        } else {
            None
        }
    }
}

} // verus!
