//! Cleaning up after a rename run: which remaining files and folders are
//! removed, which need confirmation, and where removed files are kept.

use crate::action::{Action, ActionView};
use crate::error::{TFMTError, TFMTErrorView};
use crate::history::action_list_views;
use crate::paths::{
    components, extension, is_absolute, join, main_separator, strip_prefix, utf8_extension,
    utf8_is_absolute, utf8_join, utf8_strip_prefix, component_text, component_views,
    utf8_components, utf8_parent, parent, ComponentView,
};
use crate::text::{chars_eq, chars_of, join_spec, push_all, push_str, string_from_chars};
use vstd::prelude::*;

verus! {

/// Whether a file extension marks a file that is removed without asking:
/// cover art and other images.
pub open spec fn auto_delete_extension(e: Seq<char>) -> bool {
    e == "jpg"@ || e == "jpeg"@ || e == "png"@ || e == "gif"@ || e == "bmp"@
}

fn is_literal(v: &Vec<char>, lit: &str) -> (r: bool)
    ensures
        r == (v@ == lit@),
{
    let l = chars_of(lit);
    chars_eq(v, &l)
}

/// Whether the file at `path` may be removed without asking.
pub fn file_is_safe_to_delete(path: &str) -> (r: bool)
    ensures
        r == (utf8_extension(path@) is Some && auto_delete_extension(utf8_extension(path@)->0)),
{
    match extension(path) {
        None => false,
        Some(e) => {
            let c = chars_of(e.as_str());
            is_literal(&c, "jpg") || is_literal(&c, "jpeg") || is_literal(&c, "png") || is_literal(
                &c,
                "gif",
            ) || is_literal(&c, "bmp")
        },
    }
}

/// The paths that clean-up leaves alone: the files that kept their name and
/// the targets of the run's renames.
pub open spec fn protected_spec(applied: Seq<ActionView>, unchanged: Seq<Seq<char>>) -> Set<Seq<char>> {
    Set::new(
        |p: Seq<char>|
            (exists|i: int| 0 <= i < unchanged.len() && #[trigger] unchanged[i] == p) || (exists|
                i: int,
            |
                0 <= i < applied.len() && is_rename(#[trigger] applied[i]) && rename_target(
                    applied[i],
                ) == p),
    )
}

/// Whether one of the first `k` actions is a rename to `p`.
pub open spec fn renamed_to_among(av: Seq<ActionView>, k: int, p: Seq<char>) -> bool {
    exists|j: int| 0 <= j < k && is_rename(#[trigger] av[j]) && rename_target(av[j]) == p
}

pub open spec fn is_rename(a: ActionView) -> bool {
    a is MoveFile || a is CopyFile
}

pub open spec fn rename_target(a: ActionView) -> Seq<char> {
    match a {
        ActionView::MoveFile { target, .. } => target,
        ActionView::CopyFile { target, .. } => target,
        _ => seq![],
    }
}

/// The paths that clean-up leaves alone (each once or more).
pub fn protected_cleanup_paths(applied_actions: &[Action], unchanged_files: &[String]) -> (r: Vec<
    String,
>)
    ensures
        r@.map_values(|s: String| s@).to_set() == protected_spec(
            action_list_views(applied_actions@),
            unchanged_files@.map_values(|s: String| s@),
        ),
{
    let ghost av = action_list_views(applied_actions@);
    let ghost uv = unchanged_files@.map_values(|s: String| s@);
    let mut out: Vec<String> = Vec::new();
    let mut i: usize = 0;
    while i < unchanged_files.len()
        invariant
            i <= unchanged_files@.len(),
            uv == unchanged_files@.map_values(|s: String| s@),
            out@.map_values(|s: String| s@) == uv.take(i as int),
        decreases unchanged_files.len() - i,
    {
        let ghost before = out@.map_values(|s: String| s@);
        out.push(unchanged_files[i].clone());
        assert(out@.map_values(|s: String| s@) =~= before.push(uv[i as int]));
        assert(uv.take(i + 1) =~= uv.take(i as int).push(uv[i as int]));
        i = i + 1;
    }
    assert(uv.take(unchanged_files.len() as int) =~= uv);
    let ghost base = out@.map_values(|s: String| s@);
    let mut k: usize = 0;
    while k < applied_actions.len()
        invariant
            k <= applied_actions@.len(),
            av == action_list_views(applied_actions@),
            base == uv,
            out@.map_values(|s: String| s@).len() >= uv.len(),
            out@.map_values(|s: String| s@).take(uv.len() as int) == uv,
            forall|m: int|
                uv.len() <= m < out@.len() ==> renamed_to_among(av, k as int, #[trigger] out@[m]@),
            forall|j: int|
                0 <= j < k && is_rename(#[trigger] av[j]) ==> exists|m: int|
                    uv.len() <= m < out@.len() && out@[m]@ == rename_target(av[j]),
        decreases applied_actions.len() - k,
    {
        assert(av[k as int] == applied_actions@[k as int]@);
        let ghost before = out@;
        let is_r = applied_actions[k].is_rename_action();
        if is_r {
            let t = applied_actions[k].target().to_owned();
            out.push(t);
            assert(out@.map_values(|s: String| s@).take(uv.len() as int) =~= before.map_values(
                |s: String| s@,
            ).take(uv.len() as int));
        }
        assert forall|m: int| uv.len() <= m < out@.len() implies renamed_to_among(
            av,
            k + 1,
            #[trigger] out@[m]@,
        ) by {
            if m < before.len() {
                assert(out@[m] == before[m]);
                assert(renamed_to_among(av, k as int, before[m]@));
                let j = choose|j: int|
                    0 <= j < k && is_rename(#[trigger] av[j]) && rename_target(av[j])
                        == before[m]@;
                assert(0 <= j < k + 1 && is_rename(av[j]) && rename_target(av[j]) == out@[m]@);
            } else {
                assert(is_rename(av[k as int]) && rename_target(av[k as int]) == out@[m]@);
            }
        }
        assert forall|j: int| 0 <= j < k + 1 && is_rename(#[trigger] av[j]) implies exists|m: int|
            uv.len() <= m < out@.len() && out@[m]@ == rename_target(av[j]) by {
            if j < k {
                let m = choose|m: int|
                    uv.len() <= m < before.len() && before[m]@ == rename_target(av[j]);
                assert(out@[m] == before[m]);
            } else {
                assert(out@[out@.len() - 1]@ == rename_target(av[j]));
            }
        }
        k = k + 1;
    }
    let ghost ov = out@.map_values(|s: String| s@);
    assert(ov.to_set() =~= protected_spec(av, uv)) by {
        assert forall|p: Seq<char>| ov.to_set().contains(p) <==> protected_spec(av, uv).contains(p) by {
            if ov.to_set().contains(p) {
                let m = choose|m: int| 0 <= m < ov.len() && ov[m] == p;
                if m < uv.len() {
                    assert(ov.take(uv.len() as int)[m] == uv[m]);
                    assert(uv[m] == p);
                } else {
                    assert(ov[m] == out@[m]@);
                    assert(renamed_to_among(av, av.len() as int, out@[m]@));
                }
            }
            if protected_spec(av, uv).contains(p) {
                if exists|i: int| 0 <= i < uv.len() && #[trigger] uv[i] == p {
                    let i = choose|i: int| 0 <= i < uv.len() && #[trigger] uv[i] == p;
                    assert(ov.take(uv.len() as int)[i] == ov[i]);
                    assert(ov.contains(p));
                } else {
                    let j = choose|j: int|
                        0 <= j < av.len() && is_rename(#[trigger] av[j]) && rename_target(av[j])
                            == p;
                    let m = choose|m: int|
                        uv.len() <= m < out@.len() && out@[m]@ == rename_target(av[j]);
                    assert(ov[m] == p);
                    assert(ov.contains(p));
                }
            }
        }
    }
    out
}

/// The discovered paths that are not protected, in order.
pub fn unprotected_paths(paths: Vec<String>, protected: &[String]) -> (r: Vec<String>)
    ensures
        r@.map_values(|s: String| s@) == paths@.map_values(|s: String| s@).filter(
            |p: Seq<char>| !protected@.map_values(|s: String| s@).contains(p),
        ),
{
    let ghost pv = paths@.map_values(|s: String| s@);
    let ghost prot = protected@.map_values(|s: String| s@);
    let ghost keep = |p: Seq<char>| !prot.contains(p);
    let mut out: Vec<String> = Vec::new();
    let mut i: usize = 0;
    while i < paths.len()
        invariant
            i <= paths@.len(),
            pv == paths@.map_values(|s: String| s@),
            prot == protected@.map_values(|s: String| s@),
            keep == (|p: Seq<char>| !prot.contains(p)),
            out@.map_values(|s: String| s@) == pv.take(i as int).filter(keep),
        decreases paths.len() - i,
    {
        let pc = chars_of(paths[i].as_str());
        let mut found = false;
        let mut k: usize = 0;
        while k < protected.len()
            invariant
                k <= protected@.len(),
                prot == protected@.map_values(|s: String| s@),
                pc@ == pv[i as int],
                pv == paths@.map_values(|s: String| s@),
                i < paths@.len(),
                found <==> exists|m: int| 0 <= m < k && prot[m] == pc@,
            decreases protected.len() - k,
        {
            let qc = chars_of(protected[k].as_str());
            if chars_eq(&pc, &qc) {
                found = true;
            }
            assert(prot[k as int] == protected@[k as int]@);
            k = k + 1;
        }
        assert(found <==> prot.contains(pv[i as int]));
        assert(pv.take(i + 1).drop_last() =~= pv.take(i as int));
        assert(pv.take(i + 1).last() == pv[i as int]);
        reveal(Seq::filter);
        let ghost before = out@.map_values(|s: String| s@);
        if !found {
            out.push(paths[i].clone());
            assert(out@.map_values(|s: String| s@) =~= before.push(pv[i as int]));
        } else {
            assert(out@.map_values(|s: String| s@) =~= before);
        }
        i = i + 1;
    }
    assert(pv.take(paths.len() as int) =~= pv);
    out
}

/// What remains in the renamed files' common folder after a run.
#[derive(Debug)]
pub struct RemainingItems {
    pub files: Vec<String>,
    pub directories: Vec<String>,
}

/// What clean-up will do: the files it removes (kept in the bin folder),
/// the folders it removes, and whether it must ask first.
#[derive(Debug)]
pub struct CleanupPlan {
    pub files_to_delete: Vec<String>,
    pub directories_to_remove: Vec<String>,
    pub requires_confirmation: bool,
}

/// Whether some file is not safe to delete without asking.
pub open spec fn has_unknown_files(files: Seq<Seq<char>>) -> bool {
    exists|i: int|
        0 <= i < files.len() && !(utf8_extension(#[trigger] files[i]) is Some
            && auto_delete_extension(utf8_extension(files[i])->0))
}

/// A file is safe to delete without asking exactly when its extension is
/// one of `jpg`, `jpeg`, `png`, `gif` and `bmp` (what
/// [`file_is_safe_to_delete`] answers).
pub proof fn lemma_safe_to_delete_only_images(path: Seq<char>)
    ensures
        (utf8_extension(path) is Some && auto_delete_extension(utf8_extension(path)->0)) <==> (
        utf8_extension(path) matches Some(e) && (e == "jpg"@ || e == "jpeg"@ || e == "png"@ || e
            == "gif"@ || e == "bmp"@)),
{
}

/// Clean-up asks before deleting exactly when some remaining file is not an
/// image: it goes ahead without asking only when every file has one of the
/// extensions `jpg`, `jpeg`, `png`, `gif` or `bmp`, and any other
/// extension, or none, makes it ask.
pub proof fn lemma_only_images_go_unasked(files: Seq<Seq<char>>)
    ensures
        !has_unknown_files(files) <==> forall|i: int|
            0 <= i < files.len() ==> (#[trigger] utf8_extension(files[i]) matches Some(e) && (e
                == "jpg"@ || e == "jpeg"@ || e == "png"@ || e == "gif"@ || e == "bmp"@)),
{
    if !has_unknown_files(files) {
        assert forall|i: int| 0 <= i < files.len() implies (#[trigger] utf8_extension(
            files[i],
        ) matches Some(e) && (e == "jpg"@ || e == "jpeg"@ || e == "png"@ || e == "gif"@ || e
            == "bmp"@)) by {
            assert(utf8_extension(files[i]) is Some && auto_delete_extension(
                utf8_extension(files[i])->0,
            ));
        }
    }
}

/// Nothing to do when nothing remains; otherwise every remaining file and
/// folder goes, and confirmation is asked when some file is not an image.
pub fn plan_cleanup(remaining_items: RemainingItems) -> (r: Option<CleanupPlan>)
    ensures
        (remaining_items.files@.len() == 0 && remaining_items.directories@.len() == 0) ==> r is None,
        !(remaining_items.files@.len() == 0 && remaining_items.directories@.len() == 0) ==> (
        r matches Some(p) && p.files_to_delete@ == remaining_items.files@
            && p.directories_to_remove@ == remaining_items.directories@ && p.requires_confirmation
            == has_unknown_files(remaining_items.files@.map_values(|s: String| s@))),
{
    if remaining_items.files.len() == 0 && remaining_items.directories.len() == 0 {
        return None;
    }
    let ghost fv = remaining_items.files@.map_values(|s: String| s@);
    let mut unknown = false;
    let mut i: usize = 0;
    while i < remaining_items.files.len()
        invariant
            i <= remaining_items.files@.len(),
            fv == remaining_items.files@.map_values(|s: String| s@),
            unknown <==> exists|m: int|
                0 <= m < i && !(utf8_extension(#[trigger] fv[m]) is Some && auto_delete_extension(
                    utf8_extension(fv[m])->0,
                )),
        decreases remaining_items.files.len() - i,
    {
        assert(fv[i as int] == remaining_items.files@[i as int]@);
        if !file_is_safe_to_delete(remaining_items.files[i].as_str()) {
            unknown = true;
        }
        i = i + 1;
    }
    Some(
        CleanupPlan {
            files_to_delete: remaining_items.files,
            directories_to_remove: remaining_items.directories,
            requires_confirmation: unknown,
        },
    )
}

/// Whether clean-up asked for confirmation and removes files.
pub fn confirmed_delete(plan: &CleanupPlan) -> (r: bool)
    ensures
        r == (plan.requires_confirmation && plan.files_to_delete@.len() > 0),
{
    plan.requires_confirmation && plan.files_to_delete.len() > 0
}

/// The components of a relative path joined by `_`, then `_` and the
/// checksum: the name a removed file is kept under.
pub open spec fn kept_file_name(parts: Seq<Seq<char>>, checksum: Seq<char>) -> Seq<char> {
    join_spec(parts, "_"@) + "_"@ + checksum
}

/// What is said before cleaning up: the number of remaining files when
/// confirmation is asked, else (when files go) that they were deleted.
pub fn cleanup_heading(plan: &CleanupPlan) -> (r: Option<String>)
    ensures
        plan.requires_confirmation ==> (r matches Some(s) && s@ == "Found "@ + crate::text::decimal_spec(
            plan.files_to_delete@.len() as nat,
        ) + " remaining files."@),
        !plan.requires_confirmation && plan.files_to_delete@.len() > 0 ==> (r matches Some(s) && s@
            == "Deleted the following files:"@),
        !plan.requires_confirmation && plan.files_to_delete@.len() == 0 ==> r is None,
{
    if plan.requires_confirmation {
        let mut v: Vec<char> = Vec::new();
        push_str(&mut v, "Found ");
        let n = crate::text::usize_to_decimal(plan.files_to_delete.len());
        push_all(&mut v, &n);
        push_str(&mut v, " remaining files.");
        Some(string_from_chars(v.as_slice()))
    } else if plan.files_to_delete.len() > 0 {
        Some("Deleted the following files:".to_owned())
    } else {
        None
    }
}

/// What is said after cleaning up: that files were deleted (when that was
/// confirmed) and that empty folders were removed (when there were any).
pub fn cleanup_done_notices(plan: &CleanupPlan) -> (r: Vec<String>)
    ensures
        crate::text::views_of(r@) == (if plan.requires_confirmation && plan.files_to_delete@.len()
            > 0 {
            seq!["Deleted."@]
        } else {
            seq![]
        }) + (if plan.directories_to_remove@.len() > 0 {
            seq!["Removed empty folders."@]
        } else {
            seq![]
        }),
{
    let mut r: Vec<String> = Vec::new();
    if confirmed_delete(plan) {
        r.push("Deleted.".to_owned());
    }
    let ghost first = crate::text::views_of(r@);
    if plan.directories_to_remove.len() > 0 {
        r.push("Removed empty folders.".to_owned());
        assert(crate::text::views_of(r@) =~= first.push("Removed empty folders."@));
    }
    assert(crate::text::views_of(r@) =~= (if plan.requires_confirmation
        && plan.files_to_delete@.len() > 0 {
        seq!["Deleted."@]
    } else {
        seq![]
    }) + (if plan.directories_to_remove@.len() > 0 {
        seq!["Removed empty folders."@]
    } else {
        seq![]
    }));
    r
}

/// Where a removed file whose path relative to the common folder is `rel`
/// is kept.
pub open spec fn kept_file_target(
    bin_directory: Seq<char>,
    run_id: Seq<char>,
    rel: Seq<char>,
    sep: char,
    checksum: Seq<char>,
) -> Seq<char> {
    utf8_join(
        utf8_join(bin_directory, run_id),
        kept_file_name(component_texts(utf8_components(rel), sep), checksum),
    )
}

/// The text of each component.
pub open spec fn component_texts(cs: Seq<ComponentView>, sep: char) -> Seq<Seq<char>> {
    cs.map_values(|c: ComponentView| component_text(c, seq![sep]))
}

/// Where a removed file is kept: `bin_directory/run_id/<relative path with
/// its components joined by _>_<checksum>`; `None` when `file` is not
/// below `common_prefix`.
pub fn cleanup_rename_target(
    file: &str,
    common_prefix: &str,
    checksum: &str,
    bin_directory: &str,
    run_id: &str,
) -> (r: Option<String>)
    ensures
        utf8_strip_prefix(file@, common_prefix@) is None ==> r is None,
        utf8_strip_prefix(file@, common_prefix@) is Some ==> r is Some && exists|sep: char|
            (sep == '/' || sep == '\\') && r->0@ == #[trigger] kept_file_target(
                bin_directory@,
                run_id@,
                utf8_strip_prefix(file@, common_prefix@)->0,
                sep,
                checksum@,
            ),
{
    let sep_char = main_separator();
    match strip_prefix(file, common_prefix) {
        None => None,
        Some(rel) => {
            let cs = components(rel.as_str());
            let ghost cv = component_views(cs@);
            let mut parts: Vec<String> = Vec::new();
            let mut i: usize = 0;
            while i < cs.len()
                invariant
                    i <= cs@.len(),
                    cv == component_views(cs@),
                    crate::text::views_of(parts@) == component_texts(cv, sep_char).take(i as int),
                decreases cs.len() - i,
            {
                let ghost before = crate::text::views_of(parts@);
                let t = crate::paths::component_string(&cs[i], sep_char);
                assert(cv[i as int] == cs@[i as int]@);
                parts.push(t);
                assert(crate::text::views_of(parts@) =~= before.push(
                    component_texts(cv, sep_char)[i as int],
                ));
                assert(component_texts(cv, sep_char).take(i + 1) =~= component_texts(
                    cv,
                    sep_char,
                ).take(i as int).push(component_texts(cv, sep_char)[i as int]));
                i = i + 1;
            }
            assert(component_texts(cv, sep_char).take(cs.len() as int) =~= component_texts(
                cv,
                sep_char,
            ));
            let sep = chars_of("_");
            let mut name = crate::text::join_strings(&parts, &sep);
            push_str(&mut name, "_");
            push_str(&mut name, checksum);
            let name_string = string_from_chars(name.as_slice());
            assert(name_string@ == kept_file_name(component_texts(cv, sep_char), checksum@));
            assert(cv == utf8_components(rel@));
            let dir = join(bin_directory, run_id);
            let t = join(dir.as_str(), name_string.as_str());
            assert(t@ == utf8_join(
                utf8_join(bin_directory@, run_id@),
                kept_file_name(component_texts(utf8_components(rel@), sep_char), checksum@),
            ));
            assert(sep_char == '/' || sep_char == '\\');
            assert(t@ == kept_file_target(bin_directory@, run_id@, rel@, sep_char, checksum@));
            assert(utf8_strip_prefix(file@, common_prefix@)->0 == rel@);
            assert(sep_char == '/' || sep_char == '\\');
            assert(exists|sep: char|
                (sep == '/' || sep == '\\') && t@ == #[trigger] kept_file_target(
                    bin_directory@,
                    run_id@,
                    utf8_strip_prefix(file@, common_prefix@)->0,
                    sep,
                    checksum@,
                ));
            Some(t)
        },
    }
}

/// `path` relative to `prefix` (when it is below it), shown as `./...`
/// when relative.
pub open spec fn display_path_spec(path: Seq<char>, prefix: Seq<char>, sep: char) -> Seq<char> {
    let p = match utf8_strip_prefix(path, prefix) {
        Some(rel) => rel,
        None => path,
    };
    if !utf8_is_absolute(p) {
        seq!['.', sep] + p
    } else {
        p
    }
}

/// `path` relative to `prefix` (when it is below it), shown as `./...`
/// when relative.
pub fn strip_path_prefix(path: &str, prefix: &str) -> (r: String)
    ensures
        exists|sep: char|
            (sep == '/' || sep == '\\') && r@ == #[trigger] display_path_spec(path@, prefix@, sep),
{
    let sep = main_separator();
    let p = match strip_prefix(path, prefix) {
        Some(rel) => rel,
        None => path.to_owned(),
    };
    if !is_absolute(p.as_str()) {
        let mut v: Vec<char> = Vec::new();
        v.push('.');
        v.push(sep);
        push_str(&mut v, p.as_str());
        let r = string_from_chars(v.as_slice());
        assert(r@ =~= display_path_spec(path@, prefix@, sep));
        r
    } else {
        assert(p@ == display_path_spec(path@, prefix@, sep));
        p
    }
}

// ---------------------------------------------------------------------------
// Checksums of removed files
// ---------------------------------------------------------------------------
/// At most this many bytes of a file go into its checksum.
pub const MAX_BYTES_TO_READ: usize = 62914560;

/// How many bytes of a file of `file_len` bytes are read for its checksum;
/// a length that does not fit in `usize` is a `FileTooLargeError`.
pub fn checksum_read_length(path: &str, file_len: u64) -> (r: Result<usize, TFMTError>)
    ensures
        file_len <= usize::MAX ==> r == Ok::<usize, TFMTError>(
            if file_len < MAX_BYTES_TO_READ {
                file_len as usize
            } else {
                MAX_BYTES_TO_READ
            },
        ),
        file_len > usize::MAX ==> (r matches Err(e) && e@ == TFMTErrorView::FileTooLargeError(path@)),
{
    if file_len > usize::MAX as u64 {
        return Err(TFMTError::FileTooLargeError(path.to_owned()));
    }
    let bytes = file_len as usize;
    if bytes < MAX_BYTES_TO_READ {
        Ok(bytes)
    } else {
        Ok(MAX_BYTES_TO_READ)
    }
}

/// The running sums of Adler-32 after `bytes`: each byte is added to `a`,
/// then `a` to `b`, both modulo 65521, from `a` = 1 and `b` = 0.
pub open spec fn adler_sums(bytes: Seq<u8>) -> (nat, nat)
    decreases bytes.len(),
{
    if bytes.len() == 0 {
        (1, 0)
    } else {
        let (a, b) = adler_sums(bytes.drop_last());
        let a2 = ((a + bytes.last()) % 65521) as nat;
        (a2, ((b + a2) % 65521) as nat)
    }
}

/// The Adler-32 checksum of `bytes`: `b` in the upper sixteen bits, `a` in
/// the lower ones.
pub open spec fn adler32_spec(bytes: Seq<u8>) -> nat {
    adler_sums(bytes).1 * 65536 + adler_sums(bytes).0
}

/// The `width` lowest bytes of `n`, least significant first.
pub open spec fn le_bytes(n: nat, width: nat) -> Seq<u8>
    decreases width,
{
    if width == 0 {
        seq![]
    } else {
        seq![(n % 256) as u8] + le_bytes(n / 256, (width - 1) as nat)
    }
}

/// Whether `p` is `len` as a `usize` in a machine's native byte order and
/// width: four or eight bytes, little or big endian.
pub open spec fn native_length_prefix(p: Seq<u8>, len: nat) -> bool {
    ||| p == le_bytes(len, 4)
    ||| p == le_bytes(len, 4).reverse()
    ||| p == le_bytes(len, 8)
    ||| p == le_bytes(len, 8).reverse()
}

/// Whether `c` is the Adler-32 of `buf` behind one of the native length
/// prefixes of its length.
pub open spec fn hashed_checksum(c: nat, buf: Seq<u8>) -> bool {
    exists|p: Seq<u8>| native_length_prefix(p, buf.len()) && c == adler32_spec(p + buf)
}

/// `adler2`'s Adler-32 of the buffer fed to it through std's `Hash` for
/// byte slices: first the length as a `usize` in native byte order and
/// width (`write_length_prefix`, which `Adler32` does not override), then
/// the bytes. Which of the native encodings comes first depends on the
/// machine, so the contract says only that it is one of them.
#[verifier::external_body]
fn hashed_adler32(buf: &[u8]) -> (r: u32)
    ensures
        hashed_checksum(r as nat, buf@),
{
    let mut adler = adler2::Adler32::new();
    std::hash::Hash::hash(buf, &mut adler);
    adler.checksum()
}

/// The upper-case hexadecimal digits of `n` (what `format!("{:X}")` prints).
pub open spec fn hex_upper(n: nat) -> Seq<char>
    decreases n,
{
    if n < 16 {
        seq![hex_digit(n)]
    } else {
        hex_upper(n / 16) + seq![hex_digit(n % 16)]
    }
}

pub open spec fn hex_digit(d: nat) -> char {
    if d < 10 {
        ((d + 48) as u32) as char
    } else {
        ((d + 55) as u32) as char
    }
}

fn hex_digit_exec(d: u32) -> (c: char)
    requires
        d < 16,
    ensures
        c == hex_digit(d as nat),
{
    if d == 0 {
        '0'
    } else if d == 1 {
        '1'
    } else if d == 2 {
        '2'
    } else if d == 3 {
        '3'
    } else if d == 4 {
        '4'
    } else if d == 5 {
        '5'
    } else if d == 6 {
        '6'
    } else if d == 7 {
        '7'
    } else if d == 8 {
        '8'
    } else if d == 9 {
        '9'
    } else if d == 10 {
        'A'
    } else if d == 11 {
        'B'
    } else if d == 12 {
        'C'
    } else if d == 13 {
        'D'
    } else if d == 14 {
        'E'
    } else {
        'F'
    }
}

/// Upper-case hexadecimal text of `n`.
pub fn to_hex_upper(n: u32) -> (r: Vec<char>)
    ensures
        r@ == hex_upper(n as nat),
    decreases n,
{
    let c = hex_digit_exec(n % 16);
    if n < 16 {
        let mut v = Vec::new();
        v.push(c);
        assert(v@ =~= seq![hex_digit(n as nat)]);
        v
    } else {
        let mut v = to_hex_upper(n / 16);
        v.push(c);
        assert(v@ =~= hex_upper((n / 16) as nat) + seq![hex_digit((n % 16) as nat)]);
        v
    }
}

/// The checksum text of the bytes read from a file: an Adler-32 in
/// upper-case hexadecimal.
pub fn checksum_text(buf: &[u8]) -> (r: String)
    ensures
        exists|p: Seq<u8>|
            native_length_prefix(p, buf@.len()) && r@ == hex_upper(adler32_spec(p + buf@)),
{
    let c = hashed_adler32(buf);
    let v = to_hex_upper(c);
    string_from_chars(v.as_slice())
}

// ---------------------------------------------------------------------------
// The order in which left folders are removed
// ---------------------------------------------------------------------------
/// The first position from `k` on whose path is shorter (in bytes) than
/// `len`, or the length of `s`.
pub open spec fn first_shorter_from(s: Seq<Seq<char>>, len: nat, k: int) -> int
    decreases s.len() - k,
{
    if k < 0 || k >= s.len() {
        s.len() as int
    } else if crate::validation::byte_len(s[k]) < len {
        k
    } else {
        first_shorter_from(s, len, k + 1)
    }
}

/// Folders ordered longest path first (in bytes), so that a folder comes
/// before the folders that hold it; folders of equal length keep their
/// order.
pub open spec fn deepest_first_spec(dirs: Seq<Seq<char>>) -> Seq<Seq<char>>
    decreases dirs.len(),
{
    if dirs.len() == 0 {
        seq![]
    } else {
        let s = deepest_first_spec(dirs.drop_last());
        s.insert(first_shorter_from(s, crate::validation::byte_len(dirs.last()), 0), dirs.last())
    }
}

proof fn lemma_first_shorter_bounds(s: Seq<Seq<char>>, len: nat, k: int)
    requires
        0 <= k <= s.len(),
    ensures
        k <= first_shorter_from(s, len, k) <= s.len(),
    decreases s.len() - k,
{
    if k < s.len() && crate::validation::byte_len(s[k]) >= len {
        lemma_first_shorter_bounds(s, len, k + 1);
    }
}

proof fn lemma_first_shorter_position(s: Seq<Seq<char>>, len: nat, k: int)
    requires
        0 <= k <= s.len(),
        forall|j: int| 0 <= j < k ==> crate::validation::byte_len(#[trigger] s[j]) >= len,
    ensures
        k <= first_shorter_from(s, len, k) <= s.len(),
        forall|j: int|
            0 <= j < first_shorter_from(s, len, k) ==> crate::validation::byte_len(#[trigger] s[j])
                >= len,
        first_shorter_from(s, len, k) < s.len() ==> crate::validation::byte_len(
            s[first_shorter_from(s, len, k)],
        ) < len,
    decreases s.len() - k,
{
    if k < s.len() && crate::validation::byte_len(s[k]) >= len {
        lemma_first_shorter_position(s, len, k + 1);
    }
}

/// Removing folders deepest first: the order holds every folder given, as
/// often as given, and no path comes after a shorter one.
pub proof fn lemma_deepest_first_sorted(dirs: Seq<Seq<char>>)
    ensures
        deepest_first_spec(dirs).to_multiset() == dirs.to_multiset(),
        deepest_first_spec(dirs).len() == dirs.len(),
        forall|i: int, j: int|
            0 <= i < j < deepest_first_spec(dirs).len() ==> crate::validation::byte_len(
                #[trigger] deepest_first_spec(dirs)[i],
            ) >= crate::validation::byte_len(#[trigger] deepest_first_spec(dirs)[j]),
    decreases dirs.len(),
{
    broadcast use vstd::seq_lib::group_to_multiset_ensures;

    if dirs.len() == 0 {
        assert(deepest_first_spec(dirs) =~= dirs);
    } else {
        let init = dirs.drop_last();
        let x = dirs.last();
        let xl = crate::validation::byte_len(x);
        lemma_deepest_first_sorted(init);
        let s = deepest_first_spec(init);
        lemma_first_shorter_position(s, xl, 0);
        let k = first_shorter_from(s, xl, 0);
        let r = s.insert(k, x);
        assert(r == deepest_first_spec(dirs));
        s.insert_ensures(k, x);
        vstd::seq_lib::to_multiset_insert(s, k, x);
        assert(dirs =~= init.push(x));
        vstd::seq_lib::to_multiset_build(init, x);
        assert forall|i: int, j: int| 0 <= i < j < r.len() implies crate::validation::byte_len(
            #[trigger] r[i],
        ) >= crate::validation::byte_len(#[trigger] r[j]) by {
            if j < k {
                assert(r[i] == s[i] && r[j] == s[j]);
            } else if j == k {
                assert(r[i] == s[i]);
            } else if i < k {
                assert(r[i] == s[i] && r[j] == s[j - 1]);
            } else if i == k {
                assert(r[j] == s[j - 1]);
                assert(k < s.len());
                if j - 1 > k {
                    assert(crate::validation::byte_len(s[k]) >= crate::validation::byte_len(
                        s[j - 1],
                    ));
                }
            } else {
                assert(r[i] == s[i - 1] && r[j] == s[j - 1]);
            }
        }
    }
}

/// The folders in the order in which they are removed: longest path first,
/// equal lengths in the given order (a stable sort by decreasing length).
pub fn deepest_first(directories: Vec<String>) -> (r: Vec<String>)
    ensures
        r@.map_values(|d: String| d@) == deepest_first_spec(directories@.map_values(|d: String| d@)),
{
    let ghost dv = directories@.map_values(|d: String| d@);
    let mut out: Vec<String> = Vec::new();
    let mut i: usize = 0;
    while i < directories.len()
        invariant
            i <= directories@.len(),
            dv == directories@.map_values(|d: String| d@),
            out@.map_values(|d: String| d@) == deepest_first_spec(dv.take(i as int)),
        decreases directories.len() - i,
    {
        let ghost s = out@.map_values(|d: String| d@);
        let x = directories[i].clone();
        let ghost xl = crate::validation::byte_len(x@);
        assert(dv.take(i + 1).drop_last() =~= dv.take(i as int));
        assert(dv.take(i + 1).last() == x@);
        let len = x.as_str().len();
        let mut k: usize = 0;
        while k < out.len() && out[k].as_str().len() >= len
            invariant
                k <= out@.len(),
                s == out@.map_values(|d: String| d@),
                len == xl,
                first_shorter_from(s, xl, 0) == first_shorter_from(s, xl, k as int),
            decreases out.len() - k,
        {
            assert(s[k as int] == out@[k as int]@);
            k = k + 1;
        }
        proof {
            if k < out@.len() {
                assert(s[k as int] == out@[k as int]@);
            }
        }
        out.insert(k, x);
        assert(out@.map_values(|d: String| d@) =~= s.insert(k as int, dv.take(i + 1).last()));
        i = i + 1;
    }
    assert(dv.take(directories@.len() as int) =~= dv);
    out
}

// ---------------------------------------------------------------------------
// The folder that holds every source
// ---------------------------------------------------------------------------
/// Whether `base` is a prefix of `p`, whole component by whole component
/// (what `Utf8Path::starts_with` decides).
pub open spec fn components_prefix(base: Seq<ComponentView>, p: Seq<ComponentView>) -> bool {
    base.len() <= p.len() && p.take(base.len() as int) == base
}

/// Whether the path `base` is a prefix of the path `path`, comparing whole
/// components.
pub fn path_starts_with(path: &str, base: &str) -> (r: bool)
    ensures
        r == components_prefix(utf8_components(base@), utf8_components(path@)),
{
    let pc = components(path);
    let bc = components(base);
    let ghost pv = component_views(pc@);
    let ghost bv = component_views(bc@);
    if bc.len() > pc.len() {
        return false;
    }
    assert(pv.len() == pc@.len() && bv.len() == bc@.len());
    let mut i: usize = 0;
    while i < bc.len()
        invariant
            bc@.len() <= pc@.len(),
            pv.len() == pc@.len(),
            bv.len() == bc@.len(),
            pv == utf8_components(path@),
            bv == utf8_components(base@),
            i <= bc@.len(),
            pv == component_views(pc@),
            bv == component_views(bc@),
            forall|k: int| 0 <= k < i ==> pv[k] == bv[k],
        decreases bc.len() - i,
    {
        assert(pv[i as int] == pc@[i as int]@ && bv[i as int] == bc@[i as int]@);
        if !crate::validation::component_eq(&pc[i], &bc[i]) {
            assert(pv.take(bv.len() as int)[i as int] != bv[i as int]);
            assert(pv.take(bv.len() as int) != bv);
            return false;
        }
        i = i + 1;
    }
    assert(pv.take(bv.len() as int) =~= bv);
    true
}

/// The sources of the actions that have one, in order.
pub open spec fn sources_of(av: Seq<ActionView>) -> Seq<Seq<char>>
    decreases av.len(),
{
    if av.len() == 0 {
        seq![]
    } else {
        sources_of(av.drop_last()) + match crate::action::action_source(av.last()) {
            Some(s) => seq![s],
            None => seq![],
        }
    }
}

/// Whether every path of `paths` has a parent.
pub open spec fn all_have_parents(paths: Seq<Seq<char>>) -> bool {
    forall|k: int| 0 <= k < paths.len() ==> (#[trigger] utf8_parent(paths[k])) is Some
}

/// The parents of `paths`.
pub open spec fn parent_dirs(paths: Seq<Seq<char>>) -> Seq<Seq<char>> {
    Seq::new(
        paths.len(),
        |k: int|
            match utf8_parent(paths[k]) {
                Some(d) => d,
                None => seq![],
            },
    )
}

/// The length of the longest common prefix of `a` and `b` from `i` on.
pub open spec fn lcp_from(a: Seq<ComponentView>, b: Seq<ComponentView>, i: nat) -> nat
    decreases a.len() - i,
{
    if i < a.len() && i < b.len() && a[i as int] == b[i as int] {
        lcp_from(a, b, i + 1)
    } else {
        i
    }
}

/// How many leading components of `c0` every folder of `dirs` shares.
pub open spec fn common_len(c0: Seq<ComponentView>, dirs: Seq<Seq<char>>) -> nat
    decreases dirs.len(),
{
    if dirs.len() == 0 {
        c0.len()
    } else {
        let m = common_len(c0, dirs.drop_last());
        let l = lcp_from(c0, utf8_components(dirs.last()), 0);
        if l < m {
            l
        } else {
            m
        }
    }
}

/// Whether climbing from `c0` up to its first `l` components passes no
/// root and no prefix (where a path has no parent).
pub open spec fn can_climb(c0: Seq<ComponentView>, l: nat) -> bool {
    forall|j: int| l <= j < c0.len() ==> !((#[trigger] c0[j]) is RootDir || c0[j] is Prefix)
}

/// The common folder of the sources of `av` as its components: the
/// leading components that the folders of all sources share; none when no
/// action has a source, when a source has no folder, or when a root or
/// prefix would have to be climbed above.
pub open spec fn common_folder_spec(av: Seq<ActionView>) -> Option<Seq<ComponentView>> {
    let srcs = sources_of(av);
    let dirs = parent_dirs(srcs);
    if srcs.len() > 0 && all_have_parents(srcs) && can_climb(
        utf8_components(dirs[0]),
        common_len(utf8_components(dirs[0]), dirs),
    ) {
        Some(utf8_components(dirs[0]).take(common_len(utf8_components(dirs[0]), dirs) as int))
    } else {
        None
    }
}

proof fn lemma_lcp(a: Seq<ComponentView>, b: Seq<ComponentView>, i: nat, j: nat)
    requires
        i <= j <= a.len(),
        forall|k: int| 0 <= k < i ==> a[k] == b[k],
        i <= b.len(),
    ensures
        i <= lcp_from(a, b, i) <= a.len(),
        lcp_from(a, b, i) <= b.len(),
        components_prefix(a.take(j as int), b) <==> j <= lcp_from(a, b, i),
    decreases a.len() - i,
{
    if i < a.len() && i < b.len() && a[i as int] == b[i as int] {
        if i < j {
            lemma_lcp(a, b, i + 1, j);
        } else {
            lemma_lcp(a, b, i + 1, i + 1);
            assert(components_prefix(a.take(j as int), b)) by {
                assert(b.take(j as int) =~= a.take(j as int));
            }
        }
    } else {
        if components_prefix(a.take(j as int), b) && i < j {
            assert(b.take(j as int)[i as int] == a.take(j as int)[i as int]);
        }
        if j <= i {
            assert(b.take(j as int) =~= a.take(j as int));
        }
    }
}

proof fn lemma_sources_of_add(a: Seq<ActionView>, b: Seq<ActionView>)
    ensures
        sources_of(a + b) == sources_of(a) + sources_of(b),
    decreases b.len(),
{
    if b.len() == 0 {
        assert(a + b =~= a);
        assert(sources_of(a) + sources_of(b) =~= sources_of(a));
    } else {
        lemma_sources_of_add(a, b.drop_last());
        assert((a + b).drop_last() =~= a + b.drop_last());
        assert((a + b).last() == b.last());
    }
}

proof fn lemma_common_len_prefix(c0: Seq<ComponentView>, dirs: Seq<Seq<char>>, n: int)
    requires
        0 <= n <= dirs.len(),
    ensures
        common_len(c0, dirs) <= common_len(c0, dirs.take(n)),
    decreases dirs.len(),
{
    if n < dirs.len() {
        lemma_common_len_prefix(c0, dirs.drop_last(), n);
        assert(dirs.drop_last().take(n) =~= dirs.take(n));
    } else {
        assert(dirs.take(n) =~= dirs);
    }
}

proof fn lemma_common_len_le(c0: Seq<ComponentView>, dirs: Seq<Seq<char>>)
    ensures
        common_len(c0, dirs) <= c0.len(),
    decreases dirs.len(),
{
    if dirs.len() > 0 {
        lemma_common_len_le(c0, dirs.drop_last());
    }
}

/// The longest folder that holds the sources of all `actions`: the folder
/// of the first source, climbed up (parent by parent) until every later
/// source's folder starts with it. None when no action has a source, when
/// a source has no folder, or when the climb meets a root or prefix.
pub fn longest_common_folder(actions: &[Action]) -> (r: Option<String>)
    ensures
        match common_folder_spec(action_list_views(actions@)) {
            Some(c) => r matches Some(p) && utf8_components(p@) == c,
            None => r is None,
        },
{
    let ghost av = action_list_views(actions@);
    let ghost all = sources_of(av);
    let ghost mut c0: Seq<ComponentView> = seq![];
    let mut prefix: Option<String> = None;
    let mut i: usize = 0;
    while i < actions.len()
        invariant
            i <= actions@.len(),
            av == action_list_views(actions@),
            all == sources_of(av),
            sources_of(av.take(i as int)) == all.take(sources_of(av.take(i as int)).len() as int),
            sources_of(av.take(i as int)).len() <= all.len(),
            all_have_parents(sources_of(av.take(i as int))),
            prefix is None <==> sources_of(av.take(i as int)).len() == 0,
            prefix is Some ==> c0 == utf8_components(parent_dirs(sources_of(av.take(i as int)))[0]),
            prefix matches Some(p) ==> utf8_components(p@) == c0.take(
                common_len(c0, parent_dirs(sources_of(av.take(i as int)))) as int,
            ),
            prefix is Some ==> can_climb(c0, common_len(c0, parent_dirs(sources_of(av.take(i as int))))),
        decreases actions.len() - i,
    {
        let ghost before = sources_of(av.take(i as int));
        let ghost x = av[i as int];
        let ghost one = sources_of(seq![x]);
        let ghost rest = sources_of(av.skip(i + 1));
        proof {
            assert(sources_of(seq![x]) == sources_of(seq![x].drop_last()) + match crate::action::action_source(x) {
                Some(s) => seq![s],
                None => seq![],
            });
            assert(seq![x].drop_last() =~= Seq::<ActionView>::empty());
            assert(av.take(i + 1) =~= av.take(i as int) + seq![x]);
            lemma_sources_of_add(av.take(i as int), seq![x]);
            assert(av =~= av.take(i + 1) + av.skip(i + 1));
            lemma_sources_of_add(av.take(i + 1), av.skip(i + 1));
            assert(all == before + one + rest);
        }
        assert(av[i as int] == actions@[i as int]@);
        match actions[i].source() {
            None => {
                assert(one =~= Seq::<Seq<char>>::empty());
                assert(sources_of(av.take(i + 1)) =~= before);
                assert(all.take(before.len() as int) =~= before);
            },
            Some(s) => {
                let ghost now = before.push(s@);
                assert(one =~= seq![s@]);
                assert(sources_of(av.take(i + 1)) =~= now);
                assert(all == now + rest);
                assert(all[before.len() as int] == s@);
                assert(all.take(now.len() as int) =~= now);
                match parent(s) {
                    None => {
                        proof {
                            assert(!all_have_parents(all)) by {
                                assert(utf8_parent(all[before.len() as int]) is None);
                            }
                        }
                        return None;
                    },
                    Some(d) => {
                        let ghost dirs = parent_dirs(now);
                        assert(dirs.drop_last() =~= parent_dirs(before));
                        assert(dirs.last() == d@);
                        assert(all_have_parents(now)) by {
                            assert forall|k: int| 0 <= k < now.len() implies (#[trigger] utf8_parent(
                                now[k],
                            )) is Some by {
                                if k < before.len() {
                                    assert(now[k] == before[k]);
                                }
                            }
                        }
                        match prefix {
                            None => {
                                proof {
                                    c0 = utf8_components(d@);
                                    assert(dirs[0] == d@);
                                    assert(parent_dirs(before) =~= Seq::<Seq<char>>::empty());
                                    lemma_lcp(c0, c0, 0, c0.len());
                                    assert(c0.take(c0.len() as int) =~= c0);
                                    assert(components_prefix(c0.take(c0.len() as int), c0));
                                    assert(lcp_from(c0, c0, 0) == c0.len());
                                    assert(dirs.drop_last() =~= Seq::<Seq<char>>::empty());
                                    assert(common_len(c0, dirs.drop_last()) == c0.len());
                                    assert(common_len(c0, dirs) == c0.len());
                                }
                                prefix = Some(d);
                                assert(sources_of(av.take(i + 1)) == now);
                            },
                            Some(p) => {
                                let ghost m = common_len(c0, parent_dirs(before));
                                let ghost l = lcp_from(c0, utf8_components(d@), 0);
                                proof {
                                    assert(dirs[0] == parent_dirs(before)[0]);
                                    lemma_common_len_le(c0, parent_dirs(before));
                                    lemma_lcp(c0, utf8_components(d@), 0, 0);
                                    assert forall|jj: nat| jj <= c0.len() implies (components_prefix(
                                        c0.take(jj as int),
                                        utf8_components(d@),
                                    ) <==> jj <= l) by {
                                        lemma_lcp(c0, utf8_components(d@), 0, jj);
                                    }
                                    assert(common_len(c0, dirs) == if l < m { l } else { m });
                                }
                                let mut cur = p;
                                let ghost mut j: nat = m;
                                while !path_starts_with(d.as_str(), cur.as_str())
                                    invariant
                                        utf8_components(cur@) == c0.take(j as int),
                                        j <= m <= c0.len(),
                                        j == m || l <= j,
                                        l == lcp_from(c0, utf8_components(d@), 0),
                                        l <= c0.len(),
                                        can_climb(c0, j),
                                        all == now + rest,
                                        all == sources_of(av),
                                        av == action_list_views(actions@),
                                        dirs == parent_dirs(now),
                                        now.len() > 0,
                                        c0 == utf8_components(dirs[0]),
                                        common_len(c0, dirs) == (if l < m { l } else { m }),
                                        forall|jj: nat|
                                            jj <= c0.len() ==> (components_prefix(
                                                c0.take(jj as int),
                                                utf8_components(d@),
                                            ) <==> jj <= l),
                                    decreases j,
                                {
                                    match parent(cur.as_str()) {
                                        None => {
                                            proof {
                                                assert(j > 0) by {
                                                    if j == 0 {
                                                        assert(c0.take(0) =~= Seq::<ComponentView>::empty());
                                                    }
                                                }
                                                assert(c0.take(j as int).last() == c0[j - 1]);
                                                if all_have_parents(all) {
                                                    let alld = parent_dirs(all);
                                                    assert(alld.take(now.len() as int) =~= dirs) by {
                                                        assert forall|k: int| 0 <= k < now.len() implies alld.take(now.len() as int)[k] == dirs[k] by {
                                                            assert(all[k] == now[k]);
                                                        }
                                                    }
                                                    lemma_common_len_prefix(c0, alld, now.len() as int);
                                                    assert(alld[0] == dirs[0]);
                                                    assert(!can_climb(c0, common_len(c0, alld))) by {
                                                        assert(c0[j - 1] is RootDir || c0[j - 1] is Prefix);
                                                    }
                                                }
                                            }
                                            return None;
                                        },
                                        Some(up) => {
                                            proof {
                                                assert(j > 0) by {
                                                    if j == 0 {
                                                        assert(c0.take(0) =~= Seq::<ComponentView>::empty());
                                                    }
                                                }
                                                assert(c0.take(j as int).drop_last() =~= c0.take(j - 1));
                                                assert(c0.take(j as int).last() == c0[j - 1]);
                                                assert(!components_prefix(c0.take(j as int), utf8_components(d@)));
                                                assert(l < j);
                                                j = (j - 1) as nat;
                                                assert forall|jj: int| j <= jj < c0.len() implies !((#[trigger] c0[jj]) is RootDir || c0[jj] is Prefix) by {
                                                    if jj > j {
                                                        assert(j + 1 <= jj);
                                                    }
                                                }
                                            }
                                            cur = up;
                                        },
                                    }
                                }
                                proof {
                                    assert(j <= l);
                                    assert(j == common_len(c0, dirs));
                                }
                                prefix = Some(cur);
                                assert(sources_of(av.take(i + 1)) == now);
                            },
                        }
                    },
                }
            },
        }
        i = i + 1;
    }
    proof {
        assert(av.take(actions@.len() as int) =~= av);
    }
    prefix
}

} // verus!
