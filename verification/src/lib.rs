//! Verified core of a tag-driven audio file renamer: rename-plan
//! validation, filename sanitization, template frontmatter handling,
//! rename planning, run history and its textual summaries.

pub mod action;
pub mod cleanup;
pub mod commands;
pub mod container;
pub mod context;
pub mod error;
pub mod filters;
pub mod formatter;
pub mod frontmatter;
pub mod handler;
pub mod history;
pub mod item_keys;
pub mod launch;
pub mod messages;
pub mod mounts;
pub mod options;
pub mod paths;
pub mod planner;
pub mod sanitize;
pub mod templates;
pub mod text;
pub mod ui;
pub mod validation;

use vstd::prelude::*;

verus! {

/// Conservative cross-platform limit on the length of a target path.
pub const MAX_PATH_LENGTH: usize = 256;

} // verus!
