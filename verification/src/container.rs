//! The container end-to-end suite's own rules: which cases run, how
//! volumes and commands are named, the setup script of a scenario, and how
//! the verifier judges files and history records.

use crate::action::{Action, ActionView};
use crate::mounts::Mounts;
use crate::history::{action_list_views, record_views, Record, RecordView};
use crate::paths::{
    component_text, component_views, components, file_name, is_absolute, join, utf8_components,
    utf8_file_name, utf8_is_absolute, utf8_join, ComponentView,
};
use crate::templates::remove_all;
use crate::text::{
    chars_eq, chars_of, contains_spec, ends_with_spec, join_spec, occurs_at, push_all, push_str,
    string_from_chars, trim_char_spec, trim_end_char_spec, trim_start_char_spec,
};
use vstd::prelude::*;

verus! {

// ---------------------------------------------------------------------------
// Case files and filters
// ---------------------------------------------------------------------------
/// Why a file is not a case file.
#[derive(Debug, Clone, Copy, PartialEq, Eq, Structural)]
pub enum CaseIdError {
    MissingFileName,
    WrongSuffix,
}

impl CaseIdError {
    pub fn message(&self) -> (r: &'static str)
        ensures
            *self == CaseIdError::MissingFileName ==> r@
                == "container case path must include a file name"@,
            *self == CaseIdError::WrongSuffix ==> r@
                == "container case file must end with .case.json"@,
    {
        match self {
            CaseIdError::MissingFileName => "container case path must include a file name",
            CaseIdError::WrongSuffix => "container case file must end with .case.json",
        }
    }
}

/// The identifier of the case in file `path`: its file name without the
/// `.case.json` suffix.
pub open spec fn case_id_spec(path: Seq<char>) -> Result<Seq<char>, CaseIdError> {
    match utf8_file_name(path) {
        None => Err(CaseIdError::MissingFileName),
        Some(name) => if ends_with_spec(name, ".case.json"@) {
            Ok(name.take(name.len() - ".case.json"@.len()))
        } else {
            Err(CaseIdError::WrongSuffix)
        },
    }
}

pub fn case_id_from_path(path: &str) -> (r: Result<String, CaseIdError>)
    ensures
        match case_id_spec(path@) {
            Ok(id) => r matches Ok(s) && s@ == id,
            Err(e) => r == Err::<String, CaseIdError>(e),
        },
{
    match file_name(path) {
        None => Err(CaseIdError::MissingFileName),
        Some(name) => {
            let n = chars_of(name.as_str());
            let suffix = chars_of(".case.json");
            if crate::text::ends_with(&n, &suffix) {
                let id = crate::text::slice_chars(&n, 0, n.len() - suffix.len());
                assert(id@ =~= n@.take(n@.len() - suffix@.len()));
                Ok(string_from_chars(id.as_slice()))
            } else {
                Err(CaseIdError::WrongSuffix)
            }
        },
    }
}

/// Whether a case identifier matches a filter: equal to it when exact,
/// else containing it.
pub open spec fn matches_filter_spec(case_id: Seq<char>, filter: Seq<char>, exact: bool) -> bool {
    if exact {
        case_id == filter
    } else {
        contains_spec(case_id, filter)
    }
}

fn contains_chars(s: &Vec<char>, p: &Vec<char>) -> (r: bool)
    ensures
        r == contains_spec(s@, p@),
{
    if p.len() == 0 {
        assert(s@.subrange(0, 0) =~= p@);
        assert(occurs_at(s@, p@, 0));
        return true;
    }
    let mut i: usize = 0;
    while i < s.len()
        invariant
            p@.len() > 0,
            i <= s@.len(),
            forall|k: int| 0 <= k < i ==> !occurs_at(s@, p@, k),
        decreases s@.len() - i,
    {
        if p.len() <= s.len() - i {
            let mut k: usize = 0;
            let mut same = true;
            while k < p.len()
                invariant
                    i + p@.len() <= s@.len(),
                    p.len() <= s.len() - i,
                    k <= p@.len(),
                    same <==> forall|m: int| 0 <= m < k ==> s@[i + m] == p@[m],
                decreases p.len() - k,
            {
                if s[i + k] != p[k] {
                    same = false;
                }
                k = k + 1;
            }
            if same {
                assert(s@.subrange(i as int, i + p@.len()) =~= p@);
                assert(occurs_at(s@, p@, i as int));
                return true;
            }
            assert(!occurs_at(s@, p@, i as int)) by {
                if occurs_at(s@, p@, i as int) {
                    assert forall|m: int| 0 <= m < p@.len() implies s@[i + m] == p@[m] by {
                        assert(s@.subrange(i as int, i + p@.len())[m] == s@[i + m]);
                    }
                }
            }
        }
        i = i + 1;
    }
    false
}

/// Whether a case identifier matches a filter.
pub fn matches_filter(case_id: &str, filter: &str, exact: bool) -> (r: bool)
    ensures
        r == matches_filter_spec(case_id@, filter@, exact),
{
    let c = chars_of(case_id);
    let f = chars_of(filter);
    if exact {
        chars_eq(&c, &f)
    } else {
        contains_chars(&c, &f)
    }
}

/// Whether a case runs: it matches the filter (if any) and no skip filter.
pub open spec fn matches_filters_spec(
    case_id: Seq<char>,
    filter: Option<Seq<char>>,
    skip: Seq<Seq<char>>,
    exact: bool,
) -> bool {
    (match filter {
        Some(f) => matches_filter_spec(case_id, f, exact),
        None => true,
    }) && !(exists|i: int| 0 <= i < skip.len() && matches_filter_spec(case_id, #[trigger] skip[i], exact))
}

pub fn matches_filters(case_id: &str, filter: Option<&str>, skip: &[String], exact: bool) -> (r:
    bool)
    ensures
        r == matches_filters_spec(
            case_id@,
            match filter {
                Some(f) => Some(f@),
                None => None,
            },
            skip@.map_values(|s: String| s@),
            exact,
        ),
{
    let filter_matches = match filter {
        Some(f) => matches_filter(case_id, f, exact),
        None => true,
    };
    let ghost sv = skip@.map_values(|s: String| s@);
    let mut skipped = false;
    let mut i: usize = 0;
    while i < skip.len()
        invariant
            i <= skip@.len(),
            sv == skip@.map_values(|s: String| s@),
            skipped <==> exists|k: int| 0 <= k < i && matches_filter_spec(case_id@, #[trigger] sv[k], exact),
        decreases skip.len() - i,
    {
        assert(sv[i as int] == skip@[i as int]@);
        if matches_filter(case_id, skip[i].as_str(), exact) {
            skipped = true;
        }
        i = i + 1;
    }
    filter_matches && !skipped
}

/// The character a volume-name character becomes: ASCII lowercase letters
/// and digits stay, ASCII uppercase letters are lowered, all else is `-`.
pub open spec fn volume_char(c: char) -> char {
    if ('a' <= c && c <= 'z') || ('0' <= c && c <= '9') {
        c
    } else if 'A' <= c && c <= 'Z' {
        ((c as u32) + 32) as char
    } else {
        '-'
    }
}

/// A value made fit for a volume name: mapped character by character,
/// without leading or trailing `-`, cut to `max_len` characters.
pub open spec fn sanitize_volume_spec(value: Seq<char>, max_len: nat) -> Seq<char> {
    let t = trim_char_spec(value.map_values(|c: char| volume_char(c)), '-');
    if t.len() <= max_len {
        t
    } else {
        t.take(max_len as int)
    }
}

fn volume_char_exec(c: char) -> (r: char)
    ensures
        r == volume_char(c),
{
    if ('a' <= c && c <= 'z') || ('0' <= c && c <= '9') {
        c
    } else if 'A' <= c && c <= 'Z' {
        let u = c as u32 + 32;
        assert(u == (c as u32) + 32);
        char_from_u32_ascii(u)
    } else {
        '-'
    }
}

/// The ASCII character with code `u` (a lowercase letter here).
fn char_from_u32_ascii(u: u32) -> (c: char)
    requires
        97 <= u <= 122,
    ensures
        c == u as char,
{
    let b = u as u8;
    assert(b as u32 == u);
    let c = b as char;
    assert(c as u32 == u);
    c
}

/// A value made fit for a volume name.
pub fn sanitize_volume_component(value: &str, max_len: usize) -> (r: String)
    ensures
        r@ == sanitize_volume_spec(value@, max_len as nat),
{
    let s = chars_of(value);
    let mut mapped: Vec<char> = Vec::new();
    let mut i: usize = 0;
    while i < s.len()
        invariant
            i <= s@.len(),
            mapped@ == s@.take(i as int).map_values(|c: char| volume_char(c)),
        decreases s.len() - i,
    {
        mapped.push(volume_char_exec(s[i]));
        assert(s@.take(i + 1).map_values(|c: char| volume_char(c)) =~= s@.take(i as int).map_values(
            |c: char| volume_char(c),
        ).push(volume_char(s@[i as int])));
        i = i + 1;
    }
    assert(s@.take(s@.len() as int) =~= s@);
    let end_trimmed = crate::sanitize::trim_end_char(&mapped, '-');
    let trimmed = crate::text::trim_start_char(&end_trimmed, '-');
    let n = if trimmed.len() <= max_len {
        trimmed.len()
    } else {
        max_len
    };
    let cut = crate::text::slice_chars(&trimmed, 0, n);
    assert(trimmed@.len() <= max_len ==> cut@ =~= trimmed@);
    assert(trimmed@.len() > max_len ==> cut@ =~= trimmed@.take(max_len as int));
    string_from_chars(cut.as_slice())
}


// ---------------------------------------------------------------------------
// Commands and names
// ---------------------------------------------------------------------------
/// `s` with every `c` replaced by `r`.
pub open spec fn replace_char_spec(s: Seq<char>, c: char, r: Seq<char>) -> Seq<char>
    decreases s.len(),
{
    if s.len() == 0 {
        seq![]
    } else {
        replace_char_spec(s.drop_last(), c, r) + if s.last() == c {
            r
        } else {
            seq![s.last()]
        }
    }
}

/// `value` as one single-quoted shell word.
pub open spec fn shell_quote_spec(value: Seq<char>) -> Seq<char> {
    "'"@ + replace_char_spec(value, '\'', "'\"'\"'"@) + "'"@
}

/// Quotes `value` as one shell word.
pub fn shell_quote(value: &str) -> (r: String)
    ensures
        r@ == shell_quote_spec(value@),
{
    let s = chars_of(value);
    let mut out: Vec<char> = Vec::new();
    push_str(&mut out, "'");
    let ghost start = out@;
    let mut i: usize = 0;
    while i < s.len()
        invariant
            i <= s@.len(),
            out@ == start + replace_char_spec(s@.take(i as int), '\'', "'\"'\"'"@),
        decreases s.len() - i,
    {
        assert(s@.take(i + 1).drop_last() =~= s@.take(i as int));
        assert(s@.take(i + 1).last() == s@[i as int]);
        if s[i] == '\'' {
            push_str(&mut out, "'\"'\"'");
        } else {
            out.push(s[i]);
        }
        i = i + 1;
    }
    assert(s@.take(s@.len() as int) =~= s@);
    push_str(&mut out, "'");
    string_from_chars(out.as_slice())
}

/// A container path that must be relative but is not.
#[derive(Debug)]
pub struct AbsoluteContainerPath {
    pub path: String,
}

/// `relative` below `base`; an empty `relative` is `base` itself.
pub open spec fn join_container_spec(base: Seq<char>, relative: Seq<char>) -> Result<
    Seq<char>,
    Seq<char>,
> {
    if relative.len() == 0 {
        Ok(base)
    } else if utf8_is_absolute(relative) {
        Err(relative)
    } else {
        Ok(utf8_join(base, relative))
    }
}

pub fn join_container_path(base: &str, relative: &str) -> (r: Result<String, AbsoluteContainerPath>)
    ensures
        match join_container_spec(base@, relative@) {
            Ok(p) => r matches Ok(s) && s@ == p,
            Err(p) => r matches Err(e) && e.path@ == p,
        },
{
    let rc = chars_of(relative);
    if rc.len() == 0 {
        return Ok(base.to_owned());
    }
    if is_absolute(relative) {
        return Err(AbsoluteContainerPath { path: relative.to_owned() });
    }
    Ok(join(base, relative))
}

/// The `--mount` argument of a volume.
pub fn volume_mount_arg(volume_name: &str, container_path: &str) -> (r: String)
    ensures
        r@ == "type=volume,src="@ + volume_name@ + ",dst="@ + container_path@,
{
    let mut out: Vec<char> = Vec::new();
    push_str(&mut out, "type=volume,src=");
    push_str(&mut out, volume_name);
    push_str(&mut out, ",dst=");
    push_str(&mut out, container_path);
    string_from_chars(out.as_slice())
}

/// The full command line: the runtime command, then its arguments.
pub fn runtime_argv(command: &str, args: &[String]) -> (r: Vec<String>)
    ensures
        r@.map_values(|s: String| s@) == seq![command@] + args@.map_values(|s: String| s@),
{
    let mut out: Vec<String> = Vec::new();
    out.push(command.to_owned());
    let mut i: usize = 0;
    while i < args.len()
        invariant
            i <= args@.len(),
            out@.map_values(|s: String| s@) == seq![command@] + args@.map_values(|s: String| s@).take(
                i as int,
            ),
        decreases args.len() - i,
    {
        let ghost before = out@.map_values(|s: String| s@);
        out.push(args[i].clone());
        assert(out@.map_values(|s: String| s@) =~= before.push(args@[i as int]@));
        assert(args@.map_values(|s: String| s@).take(i + 1) =~= args@.map_values(|s: String| s@).take(
            i as int,
        ).push(args@[i as int]@));
        assert(out@.map_values(|s: String| s@) =~= seq![command@] + args@.map_values(|s: String| s@).take(
            i + 1,
        ));
        i = i + 1;
    }
    assert(args@.map_values(|s: String| s@).take(args@.len() as int) =~= args@.map_values(
        |s: String| s@,
    ));
    out
}

/// Whether a command already names a configuration directory.
pub open spec fn names_config_directory(command: Seq<Seq<char>>) -> bool {
    exists|i: int|
        0 <= i < command.len() && (#[trigger] command[i] == "--config-directory"@ || command[i]
            == "-c"@)
}

/// The application command: with a `config` mount and no configuration
/// directory given, `--config-directory /work/config` goes first.
pub open spec fn command_with_config_spec(has_config_mount: bool, command: Seq<Seq<char>>) -> Seq<
    Seq<char>,
> {
    if has_config_mount && !names_config_directory(command) {
        seq!["--config-directory"@, "/work/config"@] + command
    } else {
        command
    }
}

pub fn command_with_config_directory(has_config_mount: bool, command: &[String]) -> (r: Vec<String>)
    ensures
        r@.map_values(|s: String| s@) == command_with_config_spec(
            has_config_mount,
            command@.map_values(|s: String| s@),
        ),
{
    let ghost cv = command@.map_values(|s: String| s@);
    let mut named = false;
    let mut i: usize = 0;
    let long = chars_of("--config-directory");
    let short = chars_of("-c");
    while i < command.len()
        invariant
            i <= command@.len(),
            cv == command@.map_values(|s: String| s@),
            long@ == "--config-directory"@,
            short@ == "-c"@,
            named <==> exists|k: int|
                0 <= k < i && (#[trigger] cv[k] == "--config-directory"@ || cv[k] == "-c"@),
        decreases command.len() - i,
    {
        let a = chars_of(command[i].as_str());
        assert(cv[i as int] == command@[i as int]@);
        if chars_eq(&a, &long) || chars_eq(&a, &short) {
            named = true;
        }
        i = i + 1;
    }
    let mut out: Vec<String> = Vec::new();
    if has_config_mount && !named {
        out.push("--config-directory".to_owned());
        out.push("/work/config".to_owned());
    }
    let ghost head = out@.map_values(|s: String| s@);
    let mut k: usize = 0;
    while k < command.len()
        invariant
            k <= command@.len(),
            cv == command@.map_values(|s: String| s@),
            out@.map_values(|s: String| s@) == head + cv.take(k as int),
        decreases command.len() - k,
    {
        let ghost before = out@.map_values(|s: String| s@);
        out.push(command[k].clone());
        assert(out@.map_values(|s: String| s@) =~= before.push(command@[k as int]@));
        assert(cv.take(k + 1) =~= cv.take(k as int).push(cv[k as int]));
        assert(out@.map_values(|s: String| s@) =~= head + cv.take(k + 1));
        k = k + 1;
    }
    assert(cv.take(command@.len() as int) =~= cv);
    assert(head + cv =~= command_with_config_spec(has_config_mount, cv));
    out
}

/// The lowercase hexadecimal digit of `d < 16`.
pub open spec fn hex_lower_digit(d: nat) -> char {
    if d < 10 {
        ((d + 48) as u32) as char
    } else {
        ((d + 87) as u32) as char
    }
}

/// `n` as exactly eight lowercase hexadecimal digits (`{:08x}` of a
/// 32-bit value).
pub open spec fn hex8_spec(n: nat) -> Seq<char> {
    Seq::new(8, |i: int| hex_lower_digit((n / pow16((7 - i) as nat)) % 16))
}

pub open spec fn pow16(e: nat) -> nat
    decreases e,
{
    if e == 0 {
        1
    } else {
        16 * pow16((e - 1) as nat)
    }
}

proof fn lemma_pow16_pos(e: nat)
    ensures
        pow16(e) >= 1,
    decreases e,
{
    if e > 0 {
        lemma_pow16_pos((e - 1) as nat);
    }
}

fn hex_lower_exec(d: u32) -> (c: char)
    requires
        d < 16,
    ensures
        c == hex_lower_digit(d as nat),
{
    if d < 10 {
        let b = (d + 48) as u8;
        let c = b as char;
        assert(c as u32 == d + 48);
        c
    } else {
        let b = (d + 87) as u8;
        let c = b as char;
        assert(c as u32 == d + 87);
        c
    }
}

/// The random suffix of resource names: the low 32 bits of a clock
/// reading, as eight lowercase hexadecimal digits.
pub fn random_suffix_text(low_bits: u32) -> (r: String)
    ensures
        r@ == hex8_spec(low_bits as nat),
{
    let mut out: Vec<char> = Vec::new();
    let mut i: usize = 0;
    let mut div: u32 = 268435456;
    assert(pow16(7) == 268435456) by {
        reveal_with_fuel(pow16, 8);
    }
    while i < 8
        invariant
            i <= 8,
            i < 8 ==> div as nat == pow16((7 - i) as nat),
            div > 0,
            out@ == hex8_spec(low_bits as nat).take(i as int),
        decreases 8 - i,
    {
        let d = (low_bits / div) % 16;
        let c = hex_lower_exec(d);
        out.push(c);
        assert(out@ =~= hex8_spec(low_bits as nat).take(i + 1));
        if i < 7 {
            assert(pow16((7 - i) as nat) == 16 * pow16((7 - i - 1) as nat));
            proof {
                lemma_pow16_pos((7 - i - 1) as nat);
            }
            div = div / 16;
        }
        i = i + 1;
    }
    assert(hex8_spec(low_bits as nat).take(8) =~= hex8_spec(low_bits as nat));
    string_from_chars(out.as_slice())
}


// ---------------------------------------------------------------------------
// Resources of a case
// ---------------------------------------------------------------------------
/// The volumes (and host folders) a case creates, named after the run, the
/// case and a random suffix.
#[derive(Debug)]
pub struct CaseResources {
    prefix: String,
    case_slug: String,
    random_suffix: String,
    volumes: Vec<(String, String)>,
    host_dirs: Vec<String>,
}

/// Mathematical view of [`CaseResources`].
pub struct CaseResourcesView {
    pub prefix: Seq<char>,
    pub case_slug: Seq<char>,
    pub random_suffix: Seq<char>,
    pub volumes: Seq<(Seq<char>, Seq<char>)>,
    pub host_dirs: Seq<Seq<char>>,
}

pub open spec fn pair_views(v: Seq<(String, String)>) -> Seq<(Seq<char>, Seq<char>)> {
    v.map_values(|p: (String, String)| (p.0@, p.1@))
}

impl View for CaseResources {
    type V = CaseResourcesView;

    closed spec fn view(&self) -> CaseResourcesView {
        CaseResourcesView {
            prefix: self.prefix@,
            case_slug: self.case_slug@,
            random_suffix: self.random_suffix@,
            volumes: pair_views(self.volumes@),
            host_dirs: self.host_dirs@.map_values(|s: String| s@),
        }
    }
}

/// The name of the volume for mount `alias`.
pub open spec fn volume_name_spec(r: CaseResourcesView, alias: Seq<char>) -> Seq<char> {
    r.prefix + "-"@ + r.case_slug + "-"@ + sanitize_volume_spec(alias, 16) + "-"@ + r.random_suffix
}

/// The volume of the first mount named `alias`.
pub open spec fn find_volume(volumes: Seq<(Seq<char>, Seq<char>)>, alias: Seq<char>) -> Option<
    Seq<char>,
>
    decreases volumes.len(),
{
    if volumes.len() == 0 {
        None
    } else if volumes[0].0 == alias {
        Some(volumes[0].1)
    } else {
        find_volume(volumes.drop_first(), alias)
    }
}

impl CaseResources {
    /// Resources of case `case_id` in run `run_id`, with the given suffix.
    pub fn new(case_id: &str, run_id: &str, random_suffix: String) -> (r: Self)
        ensures
            r@.prefix == "tfmttools-"@ + sanitize_volume_spec(run_id@, 24),
            r@.case_slug == sanitize_volume_spec(case_id@, 24),
            r@.random_suffix == random_suffix@,
            r@.volumes.len() == 0,
            r@.host_dirs.len() == 0,
    {
        let mut p: Vec<char> = Vec::new();
        push_str(&mut p, "tfmttools-");
        let run = sanitize_volume_component(run_id, 24);
        push_str(&mut p, run.as_str());
        let r = CaseResources {
            prefix: string_from_chars(p.as_slice()),
            case_slug: sanitize_volume_component(case_id, 24),
            random_suffix,
            volumes: Vec::new(),
            host_dirs: Vec::new(),
        };
        assert(pair_views(r.volumes@) =~= Seq::<(Seq<char>, Seq<char>)>::empty());
        assert(r.host_dirs@.map_values(|s: String| s@) =~= Seq::<Seq<char>>::empty());
        r
    }

    /// Names and records the volume for mount `alias`, and returns its name.
    pub fn push(&mut self, alias: &str) -> (r: String)
        ensures
            r@ == volume_name_spec(old(self)@, alias@),
            final(self)@ == (CaseResourcesView {
                volumes: old(self)@.volumes.push((alias@, r@)),
                ..old(self)@
            }),
    {
        let mut v: Vec<char> = Vec::new();
        push_str(&mut v, self.prefix.as_str());
        push_str(&mut v, "-");
        push_str(&mut v, self.case_slug.as_str());
        push_str(&mut v, "-");
        let a = sanitize_volume_component(alias, 16);
        push_str(&mut v, a.as_str());
        push_str(&mut v, "-");
        push_str(&mut v, self.random_suffix.as_str());
        let name = string_from_chars(v.as_slice());
        let ghost before = pair_views(self.volumes@);
        self.volumes.push((alias.to_owned(), name.clone()));
        assert(pair_views(self.volumes@) =~= before.push((alias@, name@)));
        name
    }

    /// The volume of mount `alias`, if it was created.
    pub fn volume_name(&self, alias: &str) -> (r: Option<String>)
        ensures
            match find_volume(self@.volumes, alias@) {
                Some(n) => r matches Some(s) && s@ == n,
                None => r is None,
            },
    {
        let ghost vs = self@.volumes;
        let a = chars_of(alias);
        let mut i: usize = 0;
        assert(vs.skip(0) =~= vs);
        while i < self.volumes.len()
            invariant
                i <= self.volumes@.len(),
                vs == pair_views(self.volumes@),
                a@ == alias@,
                find_volume(vs, alias@) == find_volume(vs.skip(i as int), alias@),
            decreases self.volumes.len() - i,
        {
            let c = chars_of(self.volumes[i].0.as_str());
            assert(vs.skip(i as int)[0] == vs[i as int]);
            assert(vs[i as int] == (self.volumes@[i as int].0@, self.volumes@[i as int].1@));
            if chars_eq(&c, &a) {
                return Some(self.volumes[i].1.clone());
            }
            assert(vs.skip(i as int).drop_first() =~= vs.skip(i + 1));
            i = i + 1;
        }
        assert(vs.skip(i as int) =~= Seq::<(Seq<char>, Seq<char>)>::empty());
        None
    }

    /// The names of all volumes, in creation order.
    pub fn volume_names(&self) -> (r: Vec<String>)
        ensures
            r@.map_values(|s: String| s@) == self@.volumes.map_values(
                |p: (Seq<char>, Seq<char>)| p.1,
            ),
    {
        let ghost vs = self@.volumes;
        let mut out: Vec<String> = Vec::new();
        let mut i: usize = 0;
        while i < self.volumes.len()
            invariant
                i <= self.volumes@.len(),
                vs == pair_views(self.volumes@),
                out@.map_values(|s: String| s@) == vs.map_values(
                    |p: (Seq<char>, Seq<char>)| p.1,
                ).take(i as int),
            decreases self.volumes.len() - i,
        {
            let ghost before = out@.map_values(|s: String| s@);
            out.push(self.volumes[i].1.clone());
            assert(out@.map_values(|s: String| s@) =~= before.push(vs[i as int].1));
            assert(vs.map_values(|p: (Seq<char>, Seq<char>)| p.1).take(i + 1) =~= vs.map_values(
                |p: (Seq<char>, Seq<char>)| p.1,
            ).take(i as int).push(vs[i as int].1));
            i = i + 1;
        }
        assert(vs.map_values(|p: (Seq<char>, Seq<char>)| p.1).take(self.volumes@.len() as int)
            =~= vs.map_values(|p: (Seq<char>, Seq<char>)| p.1));
        out
    }

    /// Records a host folder made for a bind volume.
    pub fn push_host_dir(&mut self, path: String)
        ensures
            final(self)@ == (CaseResourcesView {
                host_dirs: old(self)@.host_dirs.push(path@),
                ..old(self)@
            }),
    {
        let ghost before = self.host_dirs@.map_values(|s: String| s@);
        let ghost pv = path@;
        self.host_dirs.push(path);
        assert(self.host_dirs@.map_values(|s: String| s@) =~= before.push(pv));
    }

    pub fn host_dirs(&self) -> (r: &[String])
        ensures
            r@.map_values(|s: String| s@) == self@.host_dirs,
    {
        self.host_dirs.as_slice()
    }

    /// The commands that remove the case's volumes by hand.
    pub fn cleanup_commands(&self, runtime_command: &str) -> (r: Vec<String>)
        ensures
            r@.len() == self@.volumes.len(),
            forall|i: int|
                0 <= i < r@.len() ==> (#[trigger] r@[i])@ == runtime_command@ + " volume rm -f "@
                    + self@.volumes[i].1,
    {
        let ghost vs = self@.volumes;
        let mut out: Vec<String> = Vec::new();
        let mut i: usize = 0;
        while i < self.volumes.len()
            invariant
                i <= self.volumes@.len(),
                vs == pair_views(self.volumes@),
                out@.len() == i,
                forall|k: int|
                    0 <= k < i ==> (#[trigger] out@[k])@ == runtime_command@ + " volume rm -f "@
                        + vs[k].1,
            decreases self.volumes.len() - i,
        {
            let mut v: Vec<char> = Vec::new();
            push_str(&mut v, runtime_command);
            push_str(&mut v, " volume rm -f ");
            push_str(&mut v, self.volumes[i].1.as_str());
            assert(vs[i as int].1 == self.volumes@[i as int].1@);
            out.push(string_from_chars(v.as_slice()));
            i = i + 1;
        }
        out
    }
}

// ---------------------------------------------------------------------------
// Environment settings
// ---------------------------------------------------------------------------
/// A setting whose text is not accepted.
#[derive(Debug, PartialEq, Eq)]
pub enum SettingError {
    /// A flag set to something other than `1`, `0` or nothing.
    NotAFlag(String),
    /// A count that is not a positive decimal number.
    NotACount(String),
    /// A count of zero.
    ZeroCount,
}

/// A flag setting: unset, empty or `0` is off, `1` is on, anything else is
/// an error.
pub open spec fn flag_spec(value: Option<Seq<char>>) -> Option<bool> {
    match value {
        None => Some(false),
        Some(v) => if v == "1"@ {
            Some(true)
        } else if v == "0"@ || v.len() == 0 {
            Some(false)
        } else {
            None
        },
    }
}

pub fn parse_flag(value: Option<&str>) -> (r: Result<bool, SettingError>)
    ensures
        match flag_spec(
            match value {
                Some(v) => Some(v@),
                None => None,
            },
        ) {
            Some(b) => r == Ok::<bool, SettingError>(b),
            None => r matches Err(SettingError::NotAFlag(v)) && value matches Some(x) && v@ == x@,
        },
{
    match value {
        None => Ok(false),
        Some(v) => {
            let c = chars_of(v);
            let one = chars_of("1");
            let zero = chars_of("0");
            if chars_eq(&c, &one) {
                Ok(true)
            } else if chars_eq(&c, &zero) || c.len() == 0 {
                Ok(false)
            } else {
                Err(SettingError::NotAFlag(v.to_owned()))
            }
        },
    }
}

/// A setting's text, or the default when unset or empty.
pub fn value_or_default(value: Option<&str>, default: &str) -> (r: String)
    ensures
        r@ == (match value {
            Some(v) => if v@.len() > 0 {
                v@
            } else {
                default@
            },
            None => default@,
        }),
{
    match value {
        Some(v) => {
            let c = chars_of(v);
            if c.len() > 0 {
                v.to_owned()
            } else {
                default.to_owned()
            }
        },
        None => default.to_owned(),
    }
}

/// What std's `str::parse::<u64>` returns: an optional `+`, then one or
/// more ASCII digits denoting a value that fits in `u64`.
pub open spec fn parse_u64_spec(s: Seq<char>) -> Option<nat> {
    let d = crate::validation::unsigned_digits(s);
    if d.len() > 0 && crate::validation::all_ascii_digits(d) && crate::validation::digits_value(d)
        <= u64::MAX {
        Some(crate::validation::digits_value(d))
    } else {
        None
    }
}

proof fn lemma_digits_prefix_le(d: Seq<char>, k: int)
    requires
        0 <= k <= d.len(),
        crate::validation::all_ascii_digits(d),
    ensures
        crate::validation::digits_value(d.take(k)) <= crate::validation::digits_value(d),
    decreases d.len() - k,
{
    if k < d.len() {
        lemma_digits_prefix_le(d, k + 1);
        assert(d.take(k + 1).drop_last() =~= d.take(k));
        assert(crate::validation::is_ascii_digit(d[k]));
        assert(d.take(k + 1).last() == d[k]);
    } else {
        assert(d.take(k) =~= d);
    }
}

/// Parses a decimal `u64` as std's `str::parse::<u64>` does.
pub fn parse_u64(s: &str) -> (r: Option<u64>)
    ensures
        r matches Some(v) ==> parse_u64_spec(s@) == Some(v as nat),
        r is None ==> parse_u64_spec(s@) is None,
{
    let chars = chars_of(s);
    let mut start: usize = 0;
    if chars.len() > 0 && chars[0] == '+' {
        start = 1;
    }
    let ghost d = chars@.skip(start as int);
    assert(d =~= crate::validation::unsigned_digits(chars@));
    if start >= chars.len() {
        return None;
    }
    let mut acc: u64 = 0;
    let mut k = start;
    while k < chars.len()
        invariant
            chars@ == s@,
            start <= k <= chars@.len(),
            start < chars@.len(),
            start == 0 || start == 1,
            d == chars@.skip(start as int),
            d == crate::validation::unsigned_digits(chars@),
            forall|m: int| start <= m < k ==> crate::validation::is_ascii_digit(#[trigger] chars@[m]),
            acc as nat == crate::validation::digits_value(d.take(k - start)),
        decreases chars.len() - k,
    {
        let c = chars[k];
        assert(d[k - start] == c);
        if !('0' <= c && c <= '9') {
            assert(!crate::validation::is_ascii_digit(d[k - start]));
            assert(!crate::validation::all_ascii_digits(d));
            return None;
        }
        assert(d.take(k - start + 1).drop_last() =~= d.take(k - start));
        assert(d.take(k - start + 1).last() == c);
        assert(crate::validation::digits_value(d.take(k - start + 1)) == acc * 10 + ((c as nat)
            - 48));
        let digit = (c as u32 - 48) as u64;
        match acc.checked_mul(10) {
            Some(m) => match m.checked_add(digit) {
                Some(n) => {
                    acc = n;
                },
                None => {
                    proof {
                        if crate::validation::all_ascii_digits(d) {
                            lemma_digits_prefix_le(d, k - start + 1);
                        }
                    }
                    return None;
                },
            },
            None => {
                proof {
                    if crate::validation::all_ascii_digits(d) {
                        lemma_digits_prefix_le(d, k - start + 1);
                    }
                }
                return None;
            },
        }
        k = k + 1;
    }
    assert(d.take(d.len() as int) =~= d);
    assert forall|m2: int| 0 <= m2 < d.len() implies crate::validation::is_ascii_digit(
        #[trigger] d[m2],
    ) by {
        assert(d[m2] == chars@[start + m2]);
    }
    Some(acc)
}

/// A positive count setting: unset or empty gives the default.
pub open spec fn count_spec(value: Option<Seq<char>>, default: u64) -> Option<u64> {
    match value {
        None => Some(default),
        Some(v) => if v.len() == 0 {
            Some(default)
        } else {
            match parse_u64_spec(v) {
                None => None,
                Some(n) => if n > 0 {
                    Some(n as u64)
                } else {
                    None
                },
            }
        },
    }
}

pub fn parse_count(value: Option<&str>, default: u64) -> (r: Result<u64, SettingError>)
    ensures
        ({
            let vv = match value {
                Some(v) => Some(v@),
                None => None,
            };
            match count_spec(vv, default) {
                Some(n) => r == Ok::<u64, SettingError>(n),
                None => (r matches Err(SettingError::NotACount(t)) && vv == Some(t@) && parse_u64_spec(
                    t@,
                ) is None) || (r == Err::<u64, SettingError>(SettingError::ZeroCount)
                    && parse_u64_spec(vv->0) == Some(0nat)),
            }
        }),
{
    match value {
        None => Ok(default),
        Some(v) => {
            let c = chars_of(v);
            if c.len() == 0 {
                return Ok(default);
            }
            match parse_u64(v) {
                None => Err(SettingError::NotACount(v.to_owned())),
                Some(n) => if n > 0 {
                    Ok(n)
                } else {
                    Err(SettingError::ZeroCount)
                },
            }
        },
    }
}

/// How the suite's image came to be.
#[derive(Debug, Clone, Copy, PartialEq, Eq, Structural)]
pub enum ImageBuild {
    AlreadyPresent,
    Built,
    Skipped,
}

impl ImageBuild {
    pub fn as_str(self) -> (r: &'static str)
        ensures
            self == ImageBuild::AlreadyPresent ==> r@ == "already_present"@,
            self == ImageBuild::Built ==> r@ == "built"@,
            self == ImageBuild::Skipped ==> r@ == "skipped"@,
    {
        match self {
            ImageBuild::AlreadyPresent => "already_present",
            ImageBuild::Built => "built",
            ImageBuild::Skipped => "skipped",
        }
    }
}


// ---------------------------------------------------------------------------
// The setup script of a scenario
// ---------------------------------------------------------------------------
/// One step of preparing a scenario's volumes.
#[derive(Debug)]
pub enum SetupOperation {
    /// Copy a fixture folder into `path` below mount `mount`.
    CopyFixtureDir { from: String, mount: String, path: String },
}

/// A condition a scenario needs before it runs.
#[derive(Debug)]
pub enum Precondition {
    /// Two mounts that must lie on different devices.
    DifferentDevices { left: String, right: String },
}

/// The parts of a scenario that its setup script is made from: its
/// identifier, its mounts (alias and path in the container, each alias
/// once, ordered by alias), the setup operations and the preconditions.
#[derive(Debug)]
pub struct SetupScenario {
    pub id: String,
    pub mounts: Mounts,
    pub setup: Vec<SetupOperation>,
    pub preconditions: Vec<Precondition>,
}

/// Why a setup script cannot be made.
#[derive(Debug, PartialEq, Eq)]
pub enum ScriptError {
    /// The scenario (first) names a mount it does not have (second).
    UnknownMount(String, String),
    /// A copy target path that is absolute.
    AbsoluteContainerPath(String),
}

pub enum ScriptErrorView {
    UnknownMount(Seq<char>, Seq<char>),
    AbsoluteContainerPath(Seq<char>),
}

impl View for ScriptError {
    type V = ScriptErrorView;

    open spec fn view(&self) -> ScriptErrorView {
        match self {
            ScriptError::UnknownMount(a, b) => ScriptErrorView::UnknownMount(a@, b@),
            ScriptError::AbsoluteContainerPath(p) => ScriptErrorView::AbsoluteContainerPath(p@),
        }
    }
}

/// The container path of the first mount named `alias`.
pub open spec fn mount_path(mounts: Seq<(Seq<char>, Seq<char>)>, alias: Seq<char>) -> Option<
    Seq<char>,
> {
    find_volume(mounts, alias)
}

/// The commands of one setup operation.
pub open spec fn operation_commands(
    id: Seq<char>,
    mounts: Seq<(Seq<char>, Seq<char>)>,
    from: Seq<char>,
    mount: Seq<char>,
    path: Seq<char>,
) -> Result<Seq<Seq<char>>, ScriptErrorView> {
    match mount_path(mounts, mount) {
        None => Err(ScriptErrorView::UnknownMount(id, mount)),
        Some(base) => match join_container_spec(base, path) {
            Err(p) => Err(ScriptErrorView::AbsoluteContainerPath(p)),
            Ok(target) => Ok(
                seq![
                    "mkdir -p "@ + shell_quote_spec(target),
                    "cp -a "@ + shell_quote_spec("/fixtures"@) + "/"@ + shell_quote_spec(from)
                        + "/. "@ + shell_quote_spec(target),
                ],
            ),
        },
    }
}

/// The commands of the precondition that `left` and `right` are on
/// different devices.
pub open spec fn device_check_command(
    left_path: Seq<char>,
    right_path: Seq<char>,
    case_id: Seq<char>,
    left: Seq<char>,
    right: Seq<char>,
) -> Seq<char> {
    "left_dev=$(stat -c %d "@ + shell_quote_spec(left_path) + "); right_dev=$(stat -c %d "@
        + shell_quote_spec(right_path)
        + "); if [ \"$left_dev\" = \"$right_dev\" ]; then echo \"precondition failed for case "@
        + shell_quote_spec(case_id) + ": mounts "@ + shell_quote_spec(left) + " and "@
        + shell_quote_spec(right)
        + " must be on different devices\" >&2; exit 1; fi"@
}

/// The commands of a precondition.
pub open spec fn precondition_commands(
    id: Seq<char>,
    case_id: Seq<char>,
    mounts: Seq<(Seq<char>, Seq<char>)>,
    left: Seq<char>,
    right: Seq<char>,
) -> Result<Seq<char>, ScriptErrorView> {
    match mount_path(mounts, left) {
        None => Err(ScriptErrorView::UnknownMount(id, left)),
        Some(lp) => match mount_path(mounts, right) {
            None => Err(ScriptErrorView::UnknownMount(id, right)),
            Some(rp) => Ok(device_check_command(lp, rp, case_id, left, right)),
        },
    }
}

/// Views of setup operations: (fixture folder, mount, path).
pub open spec fn operation_views(ops: Seq<SetupOperation>) -> Seq<(Seq<char>, Seq<char>, Seq<char>)> {
    ops.map_values(
        |o: SetupOperation|
            match o {
                SetupOperation::CopyFixtureDir { from, mount, path } => (from@, mount@, path@),
            },
    )
}

/// Views of preconditions: (left mount, right mount).
pub open spec fn precondition_views(ps: Seq<Precondition>) -> Seq<(Seq<char>, Seq<char>)> {
    ps.map_values(
        |p: Precondition|
            match p {
                Precondition::DifferentDevices { left, right } => (left@, right@),
            },
    )
}

/// The commands of the first `n` setup operations, or the first error.
pub open spec fn setup_commands(
    id: Seq<char>,
    mounts: Seq<(Seq<char>, Seq<char>)>,
    ops: Seq<(Seq<char>, Seq<char>, Seq<char>)>,
    n: int,
) -> Result<Seq<Seq<char>>, ScriptErrorView>
    decreases n,
{
    if n <= 0 {
        Ok(seq![])
    } else {
        match setup_commands(id, mounts, ops, n - 1) {
            Err(e) => Err(e),
            Ok(cs) => match operation_commands(
                id,
                mounts,
                ops[n - 1].0,
                ops[n - 1].1,
                ops[n - 1].2,
            ) {
                Err(e) => Err(e),
                Ok(c2) => Ok(cs + c2),
            },
        }
    }
}

/// The commands of the first `n` preconditions, or the first error.
pub open spec fn precondition_list(
    id: Seq<char>,
    case_id: Seq<char>,
    mounts: Seq<(Seq<char>, Seq<char>)>,
    ps: Seq<(Seq<char>, Seq<char>)>,
    n: int,
) -> Result<Seq<Seq<char>>, ScriptErrorView>
    decreases n,
{
    if n <= 0 {
        Ok(seq![])
    } else {
        match precondition_list(id, case_id, mounts, ps, n - 1) {
            Err(e) => Err(e),
            Ok(cs) => match precondition_commands(id, case_id, mounts, ps[n - 1].0, ps[n - 1].1) {
                Err(e) => Err(e),
                Ok(c) => Ok(cs.push(c)),
            },
        }
    }
}

/// Handing every mount to the application's user.
pub open spec fn chown_commands(mounts: Seq<(Seq<char>, Seq<char>)>) -> Seq<Seq<char>> {
    mounts.map_values(|m: (Seq<char>, Seq<char>)| "chown -R 1000:1000 "@ + shell_quote_spec(m.1))
}

/// The setup script: `set -eu`, the setup operations, the ownership
/// changes and the precondition checks, joined by `; `.
pub open spec fn setup_script_spec(
    case_id: Seq<char>,
    id: Seq<char>,
    mounts: Seq<(Seq<char>, Seq<char>)>,
    ops: Seq<(Seq<char>, Seq<char>, Seq<char>)>,
    ps: Seq<(Seq<char>, Seq<char>)>,
) -> Result<Seq<char>, ScriptErrorView> {
    match setup_commands(id, mounts, ops, ops.len() as int) {
        Err(e) => Err(e),
        Ok(setup) => match precondition_list(id, case_id, mounts, ps, ps.len() as int) {
            Err(e) => Err(e),
            Ok(pre) => Ok(
                join_spec(seq!["set -eu"@] + setup + chown_commands(mounts) + pre, "; "@),
            ),
        },
    }
}

proof fn lemma_setup_error_stays(
    id: Seq<char>,
    mounts: Seq<(Seq<char>, Seq<char>)>,
    ops: Seq<(Seq<char>, Seq<char>, Seq<char>)>,
    m: int,
    n: int,
)
    requires
        0 <= m <= n,
        setup_commands(id, mounts, ops, m) is Err,
    ensures
        setup_commands(id, mounts, ops, n) == setup_commands(id, mounts, ops, m),
    decreases n - m,
{
    if m < n {
        lemma_setup_error_stays(id, mounts, ops, m, n - 1);
    }
}

proof fn lemma_precondition_error_stays(
    id: Seq<char>,
    case_id: Seq<char>,
    mounts: Seq<(Seq<char>, Seq<char>)>,
    ps: Seq<(Seq<char>, Seq<char>)>,
    m: int,
    n: int,
)
    requires
        0 <= m <= n,
        precondition_list(id, case_id, mounts, ps, m) is Err,
    ensures
        precondition_list(id, case_id, mounts, ps, n) == precondition_list(
            id,
            case_id,
            mounts,
            ps,
            m,
        ),
    decreases n - m,
{
    if m < n {
        lemma_precondition_error_stays(id, case_id, mounts, ps, m, n - 1);
    }
}

fn lookup_mount(mounts: &Vec<(String, String)>, alias: &str) -> (r: Option<String>)
    ensures
        match mount_path(pair_views(mounts@), alias@) {
            Some(p) => r matches Some(s) && s@ == p,
            None => r is None,
        },
{
    let ghost vs = pair_views(mounts@);
    let a = chars_of(alias);
    let mut i: usize = 0;
    assert(vs.skip(0) =~= vs);
    while i < mounts.len()
        invariant
            i <= mounts@.len(),
            vs == pair_views(mounts@),
            a@ == alias@,
            find_volume(vs, alias@) == find_volume(vs.skip(i as int), alias@),
        decreases mounts.len() - i,
    {
        let c = chars_of(mounts[i].0.as_str());
        assert(vs.skip(i as int)[0] == vs[i as int]);
        assert(vs[i as int] == (mounts@[i as int].0@, mounts@[i as int].1@));
        if chars_eq(&c, &a) {
            return Some(mounts[i].1.clone());
        }
        assert(vs.skip(i as int).drop_first() =~= vs.skip(i + 1));
        i = i + 1;
    }
    assert(vs.skip(i as int) =~= Seq::<(Seq<char>, Seq<char>)>::empty());
    None
}

/// The shell script that prepares a case's volumes.
pub fn build_setup_script(case_id: &str, scenario: &SetupScenario) -> (r: Result<String, ScriptError>)
    ensures
        match setup_script_spec(
            case_id@,
            scenario.id@,
            scenario.mounts@,
            operation_views(scenario.setup@),
            precondition_views(scenario.preconditions@),
        ) {
            Ok(t) => r matches Ok(s) && s@ == t,
            Err(e) => r matches Err(x) && x@ == e,
        },
{
    let ghost id = scenario.id@;
    let mounts = scenario.mounts.entries();
    let ghost mv = scenario.mounts@;
    assert(pair_views(mounts@) =~= mv);
    let ghost ov = operation_views(scenario.setup@);
    let ghost pv = precondition_views(scenario.preconditions@);
    let mut commands: Vec<String> = Vec::new();
    commands.push("set -eu".to_owned());
    let ghost head = crate::text::views_of(commands@);
    assert(head =~= seq!["set -eu"@]);
    let mut i: usize = 0;
    while i < scenario.setup.len()
        invariant
            i <= scenario.setup@.len(),
            id == scenario.id@,
            mv == pair_views(mounts@),
            mv == scenario.mounts@,
            ov == operation_views(scenario.setup@),
            head == seq!["set -eu"@],
            setup_commands(id, mv, ov, i as int) matches Ok(cs) && crate::text::views_of(commands@)
                == head + cs,
        decreases scenario.setup.len() - i,
    {
        let ghost before = crate::text::views_of(commands@);
        match &scenario.setup[i] {
            SetupOperation::CopyFixtureDir { from, mount, path } => {
                assert(ov[i as int] == (from@, mount@, path@));
                let base = match lookup_mount(mounts, mount.as_str()) {
                    Some(b) => b,
                    None => {
                        let err = ScriptError::UnknownMount(scenario.id.clone(), mount.clone());
                        assert(setup_commands(id, mv, ov, i + 1) == Err::<
                            Seq<Seq<char>>,
                            ScriptErrorView,
                        >(err@));
                        proof {
                            lemma_setup_error_stays(id, mv, ov, i + 1, ov.len() as int);
                        }
                        return Err(err);
                    },
                };
                let target = match join_container_path(base.as_str(), path.as_str()) {
                    Ok(t) => t,
                    Err(e) => {
                        let err = ScriptError::AbsoluteContainerPath(e.path);
                        assert(setup_commands(id, mv, ov, i + 1) == Err::<
                            Seq<Seq<char>>,
                            ScriptErrorView,
                        >(err@));
                        proof {
                            lemma_setup_error_stays(id, mv, ov, i + 1, ov.len() as int);
                        }
                        return Err(err);
                    },
                };
                let qt = shell_quote(target.as_str());
                let mut c1: Vec<char> = Vec::new();
                push_str(&mut c1, "mkdir -p ");
                push_str(&mut c1, qt.as_str());
                commands.push(string_from_chars(c1.as_slice()));
                let mut c2: Vec<char> = Vec::new();
                push_str(&mut c2, "cp -a ");
                let qf = shell_quote("/fixtures");
                push_str(&mut c2, qf.as_str());
                push_str(&mut c2, "/");
                let qfrom = shell_quote(from.as_str());
                push_str(&mut c2, qfrom.as_str());
                push_str(&mut c2, "/. ");
                push_str(&mut c2, qt.as_str());
                commands.push(string_from_chars(c2.as_slice()));
                assert(crate::text::views_of(commands@) =~= before + seq![c1@, c2@]);
            },
        }
        i = i + 1;
    }
    let ghost setup_cs = setup_commands(id, mv, ov, ov.len() as int)->Ok_0;
    assert(crate::text::views_of(commands@) == head + setup_cs);
    let mut m: usize = 0;
    while m < mounts.len()
        invariant
            m <= mounts@.len(),
            mv == pair_views(mounts@),
            mv == scenario.mounts@,
            crate::text::views_of(commands@) == head + setup_cs + chown_commands(mv).take(m as int),
        decreases mounts.len() - m,
    {
        let ghost before = crate::text::views_of(commands@);
        let q = shell_quote(mounts[m].1.as_str());
        let mut c: Vec<char> = Vec::new();
        push_str(&mut c, "chown -R 1000:1000 ");
        push_str(&mut c, q.as_str());
        assert(mv[m as int].1 == mounts@[m as int].1@);
        commands.push(string_from_chars(c.as_slice()));
        assert(chown_commands(mv).take(m + 1) =~= chown_commands(mv).take(m as int).push(
            chown_commands(mv)[m as int],
        ));
        assert(crate::text::views_of(commands@) =~= before.push(c@));
        m = m + 1;
    }
    assert(chown_commands(mv).take(mv.len() as int) =~= chown_commands(mv));
    let ghost mid = crate::text::views_of(commands@);
    let mut k: usize = 0;
    while k < scenario.preconditions.len()
        invariant
            k <= scenario.preconditions@.len(),
            id == scenario.id@,
            mv == pair_views(mounts@),
            mv == scenario.mounts@,
            pv == precondition_views(scenario.preconditions@),
            ov == operation_views(scenario.setup@),
            setup_commands(id, mv, ov, ov.len() as int) is Ok,
            precondition_list(id, case_id@, mv, pv, k as int) matches Ok(ps)
                && crate::text::views_of(commands@) == mid + ps,
        decreases scenario.preconditions.len() - k,
    {
        let ghost before = crate::text::views_of(commands@);
        match &scenario.preconditions[k] {
            Precondition::DifferentDevices { left, right } => {
                assert(pv[k as int] == (left@, right@));
                let lp = match lookup_mount(mounts, left.as_str()) {
                    Some(p) => p,
                    None => {
                        let err = ScriptError::UnknownMount(scenario.id.clone(), left.clone());
                        assert(precondition_list(id, case_id@, mv, pv, k + 1) == Err::<
                            Seq<Seq<char>>,
                            ScriptErrorView,
                        >(err@));
                        proof {
                            lemma_precondition_error_stays(id, case_id@, mv, pv, k + 1, pv.len() as int);
                        }
                        return Err(err);
                    },
                };
                let rp = match lookup_mount(mounts, right.as_str()) {
                    Some(p) => p,
                    None => {
                        let err = ScriptError::UnknownMount(scenario.id.clone(), right.clone());
                        assert(precondition_list(id, case_id@, mv, pv, k + 1) == Err::<
                            Seq<Seq<char>>,
                            ScriptErrorView,
                        >(err@));
                        proof {
                            lemma_precondition_error_stays(id, case_id@, mv, pv, k + 1, pv.len() as int);
                        }
                        return Err(err);
                    },
                };
                let mut c: Vec<char> = Vec::new();
                push_str(&mut c, "left_dev=$(stat -c %d ");
                let q1 = shell_quote(lp.as_str());
                push_str(&mut c, q1.as_str());
                push_str(&mut c, "); right_dev=$(stat -c %d ");
                let q2 = shell_quote(rp.as_str());
                push_str(&mut c, q2.as_str());
                push_str(
                    &mut c,
                    "); if [ \"$left_dev\" = \"$right_dev\" ]; then echo \"precondition failed for case ",
                );
                let q3 = shell_quote(case_id);
                push_str(&mut c, q3.as_str());
                push_str(&mut c, ": mounts ");
                let q4 = shell_quote(left.as_str());
                push_str(&mut c, q4.as_str());
                push_str(&mut c, " and ");
                let q5 = shell_quote(right.as_str());
                push_str(&mut c, q5.as_str());
                push_str(&mut c, " must be on different devices\" >&2; exit 1; fi");
                commands.push(string_from_chars(c.as_slice()));
                assert(crate::text::views_of(commands@) =~= before.push(c@));
            },
        }
        k = k + 1;
    }
    let sep = chars_of("; ");
    let joined = crate::text::join_strings(&commands, &sep);
    Ok(string_from_chars(joined.as_slice()))
}


// ---------------------------------------------------------------------------
// The verifier
// ---------------------------------------------------------------------------
/// The kind of a recorded action, as the verifier names it.
#[derive(Debug, Clone, Copy, PartialEq, Eq, Structural)]
pub enum ActionName {
    MoveFile,
    CopyFile,
    RemoveFile,
    MakeDir,
    RemoveDir,
}

/// A file the verifier checks: whether it exists, and its checksum.
#[derive(Debug)]
pub struct FilesystemExpectation {
    pub mount: String,
    pub path: String,
    pub exists: bool,
    pub checksum: Option<String>,
}

/// A history record the verifier checks: the actions it must and must not
/// contain.
#[derive(Debug)]
pub struct HistoryExpectation {
    pub mount: String,
    pub path: String,
    pub record: usize,
    pub contains_actions: Vec<ActionName>,
    pub does_not_contain_actions: Vec<ActionName>,
}

/// What the verifier is asked: the mounts (alias and path) and the
/// expectations.
#[derive(Debug)]
pub struct VerifyRequest {
    pub mounts: Vec<(String, String)>,
    pub filesystem: Vec<FilesystemExpectation>,
    pub history: Vec<HistoryExpectation>,
}

/// One finding of the verifier.
#[derive(Debug)]
#[allow(inconsistent_fields)]
pub enum VerifyOutcome {
    Passed { path: String },
    NotPresent { path: String },
    UnexpectedPresent { path: String },
    ChecksumMismatch { path: String, expected: String, actual: String },
    HistoryRecordMissing { path: String, record: usize, message: String },
    HistoryActionMissing { path: String, record: usize, action: ActionName, actual: Vec<ActionName> },
    HistoryActionUnexpected {
        path: String,
        record: usize,
        action: ActionName,
        actual: Vec<ActionName>,
    },
    Error { message: String },
}

/// Mathematical view of a [`VerifyOutcome`].
#[allow(inconsistent_fields)]
pub enum VerifyOutcomeView {
    Passed { path: Seq<char> },
    NotPresent { path: Seq<char> },
    UnexpectedPresent { path: Seq<char> },
    ChecksumMismatch { path: Seq<char>, expected: Seq<char>, actual: Seq<char> },
    HistoryRecordMissing { path: Seq<char>, record: nat, message: Seq<char> },
    HistoryActionMissing { path: Seq<char>, record: nat, action: ActionName, actual: Seq<ActionName> },
    HistoryActionUnexpected {
        path: Seq<char>,
        record: nat,
        action: ActionName,
        actual: Seq<ActionName>,
    },
    Error { message: Seq<char> },
}

impl View for VerifyOutcome {
    type V = VerifyOutcomeView;

    open spec fn view(&self) -> VerifyOutcomeView {
        match self {
            VerifyOutcome::Passed { path } => VerifyOutcomeView::Passed { path: path@ },
            VerifyOutcome::NotPresent { path } => VerifyOutcomeView::NotPresent { path: path@ },
            VerifyOutcome::UnexpectedPresent { path } => VerifyOutcomeView::UnexpectedPresent {
                path: path@,
            },
            VerifyOutcome::ChecksumMismatch { path, expected, actual } =>
                VerifyOutcomeView::ChecksumMismatch {
                path: path@,
                expected: expected@,
                actual: actual@,
            },
            VerifyOutcome::HistoryRecordMissing { path, record, message } =>
                VerifyOutcomeView::HistoryRecordMissing {
                path: path@,
                record: *record as nat,
                message: message@,
            },
            VerifyOutcome::HistoryActionMissing { path, record, action, actual } =>
                VerifyOutcomeView::HistoryActionMissing {
                path: path@,
                record: *record as nat,
                action: *action,
                actual: actual@,
            },
            VerifyOutcome::HistoryActionUnexpected { path, record, action, actual } =>
                VerifyOutcomeView::HistoryActionUnexpected {
                path: path@,
                record: *record as nat,
                action: *action,
                actual: actual@,
            },
            VerifyOutcome::Error { message } => VerifyOutcomeView::Error { message: message@ },
        }
    }
}

pub open spec fn outcome_views(v: Seq<VerifyOutcome>) -> Seq<VerifyOutcomeView> {
    v.map_values(|o: VerifyOutcome| o@)
}

impl VerifyOutcome {
    /// Whether the finding is a pass.
    pub fn passed(&self) -> (r: bool)
        ensures
            r == (self@ is Passed),
    {
        match self {
            VerifyOutcome::Passed { .. } => true,
            _ => false,
        }
    }
}

/// The verifier's answer.
#[derive(Debug)]
pub struct VerifyResponse {
    pub outcomes: Vec<VerifyOutcome>,
}

/// Where an expectation's file is: its mount's path, with the relative
/// path joined on when there is one.
pub open spec fn resolve_path_spec(
    mounts: Seq<(Seq<char>, Seq<char>)>,
    mount: Seq<char>,
    relative: Seq<char>,
) -> Option<Seq<char>> {
    match find_volume(mounts, mount) {
        None => None,
        Some(base) => if relative.len() == 0 {
            Some(base)
        } else {
            Some(utf8_join(base, relative))
        },
    }
}

/// Where an expectation's file is; `None` for an unknown mount.
pub fn resolve_path(mounts: &Vec<(String, String)>, mount: &str, relative_path: &str) -> (r: Option<
    String,
>)
    ensures
        match resolve_path_spec(pair_views(mounts@), mount@, relative_path@) {
            Some(p) => r matches Some(s) && s@ == p,
            None => r is None,
        },
{
    match lookup_mount(mounts, mount) {
        None => None,
        Some(base) => {
            let rc = chars_of(relative_path);
            if rc.len() == 0 {
                Some(base)
            } else {
                Some(join(base.as_str(), relative_path))
            }
        },
    }
}

/// The name of an action's kind (tag edits have none).
pub open spec fn action_name_spec(a: ActionView) -> Option<ActionName> {
    match a {
        ActionView::MoveFile { .. } => Some(ActionName::MoveFile),
        ActionView::CopyFile { .. } => Some(ActionName::CopyFile),
        ActionView::RemoveFile(_) => Some(ActionName::RemoveFile),
        ActionView::MakeDir(_) => Some(ActionName::MakeDir),
        ActionView::RemoveDir(_) => Some(ActionName::RemoveDir),
        ActionView::EditTagValues { .. } => None,
    }
}

pub fn action_name(action: &Action) -> (r: Option<ActionName>)
    ensures
        r == action_name_spec(action@),
{
    match action {
        Action::MoveFile { .. } => Some(ActionName::MoveFile),
        Action::CopyFile { .. } => Some(ActionName::CopyFile),
        Action::RemoveFile(_) => Some(ActionName::RemoveFile),
        Action::MakeDir(_) => Some(ActionName::MakeDir),
        Action::RemoveDir(_) => Some(ActionName::RemoveDir),
        Action::EditTagValues { .. } => None,
    }
}

/// The names of a record's actions, in order.
pub open spec fn action_names_spec(a: Seq<ActionView>) -> Seq<ActionName>
    decreases a.len(),
{
    if a.len() == 0 {
        seq![]
    } else {
        action_names_spec(a.drop_last()) + match action_name_spec(a.last()) {
            Some(n) => seq![n],
            None => seq![],
        }
    }
}

pub fn action_names(actions: &[Action]) -> (r: Vec<ActionName>)
    ensures
        r@ == action_names_spec(action_list_views(actions@)),
{
    let ghost av = action_list_views(actions@);
    let mut out: Vec<ActionName> = Vec::new();
    let mut i: usize = 0;
    while i < actions.len()
        invariant
            i <= actions@.len(),
            av == action_list_views(actions@),
            out@ == action_names_spec(av.take(i as int)),
        decreases actions.len() - i,
    {
        assert(av.take(i + 1).drop_last() =~= av.take(i as int));
        assert(av.take(i + 1).last() == actions@[i as int]@);
        match action_name(&actions[i]) {
            Some(n) => {
                out.push(n);
            },
            None => {},
        }
        assert(out@ =~= action_names_spec(av.take(i + 1)));
        i = i + 1;
    }
    assert(av.take(actions@.len() as int) =~= av);
    out
}

/// `c` in upper case when it is an ASCII letter.
pub open spec fn ascii_upper_seq(s: Seq<char>) -> Seq<char> {
    s.map_values(|c: char| crate::validation::ascii_upper(c))
}

/// Whether two texts are equal ignoring ASCII case.
pub open spec fn eq_ignore_ascii_case_spec(a: Seq<char>, b: Seq<char>) -> bool {
    ascii_upper_seq(a) == ascii_upper_seq(b)
}

fn to_ascii_upper(s: &str) -> (r: Vec<char>)
    ensures
        r@ == ascii_upper_seq(s@),
{
    let c = chars_of(s);
    let mut out: Vec<char> = Vec::new();
    let mut i: usize = 0;
    while i < c.len()
        invariant
            i <= c@.len(),
            out@ == ascii_upper_seq(c@.take(i as int)),
        decreases c.len() - i,
    {
        out.push(crate::validation::ascii_upper_exec(c[i]));
        assert(ascii_upper_seq(c@.take(i + 1)) =~= ascii_upper_seq(c@.take(i as int)).push(
            crate::validation::ascii_upper(c@[i as int]),
        ));
        i = i + 1;
    }
    assert(c@.take(c@.len() as int) =~= c@);
    out
}

/// The finding for a file expectation at `path`, given whether a file is
/// there and (when a checksum is expected and the file is there) the
/// checksum computed, or why it could not be.
pub open spec fn filesystem_outcome_spec(
    path: Seq<char>,
    exists: bool,
    expected_checksum: Option<Seq<char>>,
    on_disk: bool,
    checksum: Option<Result<Seq<char>, Seq<char>>>,
) -> VerifyOutcomeView {
    if !exists {
        if on_disk {
            VerifyOutcomeView::UnexpectedPresent { path }
        } else {
            VerifyOutcomeView::Passed { path }
        }
    } else if !on_disk {
        VerifyOutcomeView::NotPresent { path }
    } else {
        match expected_checksum {
            None => VerifyOutcomeView::Passed { path },
            Some(expected) => match checksum->0 {
                Ok(actual) => if eq_ignore_ascii_case_spec(actual, expected) {
                    VerifyOutcomeView::Passed { path }
                } else {
                    VerifyOutcomeView::ChecksumMismatch {
                        path,
                        expected: ascii_upper_seq(expected),
                        actual,
                    }
                },
                Err(message) => VerifyOutcomeView::Error {
                    message: "failed to checksum "@ + path + ": "@ + message,
                },
            },
        }
    }
}

/// Judges a file expectation at its resolved `path`.
pub fn filesystem_outcome(
    path: String,
    expectation: &FilesystemExpectation,
    on_disk: bool,
    checksum: Option<Result<String, String>>,
) -> (r: VerifyOutcome)
    requires
        expectation.exists && on_disk && expectation.checksum is Some ==> checksum is Some,
    ensures
        r@ == filesystem_outcome_spec(
            path@,
            expectation.exists,
            match expectation.checksum {
                Some(c) => Some(c@),
                None => None,
            },
            on_disk,
            match checksum {
                Some(Ok(a)) => Some(Ok::<Seq<char>, Seq<char>>(a@)),
                Some(Err(m)) => Some(Err::<Seq<char>, Seq<char>>(m@)),
                None => None,
            },
        ),
{
    if !expectation.exists {
        if on_disk {
            return VerifyOutcome::UnexpectedPresent { path };
        } else {
            return VerifyOutcome::Passed { path };
        }
    }
    if !on_disk {
        return VerifyOutcome::NotPresent { path };
    }
    match &expectation.checksum {
        None => VerifyOutcome::Passed { path },
        Some(expected) => match checksum {
            Some(Ok(actual)) => {
                let a = to_ascii_upper(actual.as_str());
                let e = to_ascii_upper(expected.as_str());
                if chars_eq(&a, &e) {
                    VerifyOutcome::Passed { path }
                } else {
                    VerifyOutcome::ChecksumMismatch {
                        path,
                        expected: string_from_chars(e.as_slice()),
                        actual,
                    }
                }
            },
            Some(Err(message)) => {
                let mut m: Vec<char> = Vec::new();
                push_str(&mut m, "failed to checksum ");
                push_str(&mut m, path.as_str());
                push_str(&mut m, ": ");
                push_str(&mut m, message.as_str());
                VerifyOutcome::Error { message: string_from_chars(m.as_slice()) }
            },
            None => VerifyOutcome::Passed { path },
        },
    }
}

/// The findings for the wanted actions (first) and the unwanted ones.
pub open spec fn action_findings(
    path: Seq<char>,
    record: nat,
    actual: Seq<ActionName>,
    wanted: Seq<ActionName>,
    unwanted: Seq<ActionName>,
) -> Seq<VerifyOutcomeView> {
    Seq::new(
        wanted.len(),
        |i: int|
            if actual.contains(wanted[i]) {
                VerifyOutcomeView::Passed { path }
            } else {
                VerifyOutcomeView::HistoryActionMissing { path, record, action: wanted[i], actual }
            },
    ) + Seq::new(
        unwanted.len(),
        |i: int|
            if actual.contains(unwanted[i]) {
                VerifyOutcomeView::HistoryActionUnexpected {
                    path,
                    record,
                    action: unwanted[i],
                    actual,
                }
            } else {
                VerifyOutcomeView::Passed { path }
            },
    )
}

/// The findings for a history expectation at its resolved `path`, given
/// the loaded records (the action names of each) or why loading failed.
pub open spec fn history_outcomes_spec(
    path: Seq<char>,
    record: nat,
    wanted: Seq<ActionName>,
    unwanted: Seq<ActionName>,
    loaded: Result<Seq<Seq<ActionName>>, Seq<char>>,
) -> Seq<VerifyOutcomeView> {
    match loaded {
        Err(message) => seq![VerifyOutcomeView::HistoryRecordMissing { path, record, message }],
        Ok(records) => if record >= records.len() {
            seq![
                VerifyOutcomeView::HistoryRecordMissing {
                    path,
                    record,
                    message: "history contains "@ + crate::text::decimal_spec(records.len())
                        + " records"@,
                },
            ]
        } else {
            action_findings(path, record, records[record as int], wanted, unwanted)
        },
    }
}

fn contains_name(v: &Vec<ActionName>, n: ActionName) -> (r: bool)
    ensures
        r == v@.contains(n),
{
    let mut i: usize = 0;
    while i < v.len()
        invariant
            i <= v@.len(),
            forall|k: int| 0 <= k < i ==> v@[k] != n,
        decreases v.len() - i,
    {
        if v[i] == n {
            assert(v@[i as int] == n);
            return true;
        }
        i = i + 1;
    }
    false
}

fn clone_names(v: &Vec<ActionName>) -> (r: Vec<ActionName>)
    ensures
        r@ == v@,
{
    let mut out: Vec<ActionName> = Vec::new();
    let mut i: usize = 0;
    while i < v.len()
        invariant
            i <= v@.len(),
            out@ == v@.take(i as int),
        decreases v.len() - i,
    {
        out.push(v[i]);
        assert(out@ =~= v@.take(i + 1));
        i = i + 1;
    }
    assert(v@.take(v@.len() as int) =~= v@);
    out
}

/// Judges a history expectation at its resolved `path`.
pub fn history_outcomes(
    path: &str,
    expectation: &HistoryExpectation,
    loaded: Result<Vec<Vec<ActionName>>, String>,
) -> (r: Vec<VerifyOutcome>)
    ensures
        outcome_views(r@) == history_outcomes_spec(
            path@,
            expectation.record as nat,
            expectation.contains_actions@,
            expectation.does_not_contain_actions@,
            match loaded {
                Ok(v) => Ok(v@.map_values(|x: Vec<ActionName>| x@)),
                Err(m) => Err(m@),
            },
        ),
{
    let mut out: Vec<VerifyOutcome> = Vec::new();
    match loaded {
        Err(message) => {
            out.push(
                VerifyOutcome::HistoryRecordMissing {
                    path: path.to_owned(),
                    record: expectation.record,
                    message,
                },
            );
            assert(outcome_views(out@) =~= history_outcomes_spec(
                path@,
                expectation.record as nat,
                expectation.contains_actions@,
                expectation.does_not_contain_actions@,
                Err(message@),
            ));
            out
        },
        Ok(records) => {
            let ghost rv = records@.map_values(|x: Vec<ActionName>| x@);
            if expectation.record >= records.len() {
                let mut m: Vec<char> = Vec::new();
                push_str(&mut m, "history contains ");
                let d = crate::text::usize_to_decimal(records.len());
                push_all(&mut m, &d);
                push_str(&mut m, " records");
                out.push(
                    VerifyOutcome::HistoryRecordMissing {
                        path: path.to_owned(),
                        record: expectation.record,
                        message: string_from_chars(m.as_slice()),
                    },
                );
                assert(outcome_views(out@) =~= history_outcomes_spec(
                    path@,
                    expectation.record as nat,
                    expectation.contains_actions@,
                    expectation.does_not_contain_actions@,
                    Ok(rv),
                ));
                return out;
            }
            let actual = &records[expectation.record];
            assert(rv[expectation.record as int] == actual@);
            let ghost expected = action_findings(
                path@,
                expectation.record as nat,
                actual@,
                expectation.contains_actions@,
                expectation.does_not_contain_actions@,
            );
            let wanted = &expectation.contains_actions;
            let unwanted = &expectation.does_not_contain_actions;
            let mut i: usize = 0;
            while i < wanted.len()
                invariant
                    i <= wanted@.len(),
                    expected == action_findings(
                        path@,
                        expectation.record as nat,
                        actual@,
                        wanted@,
                        unwanted@,
                    ),
                    outcome_views(out@) == expected.take(i as int),
                decreases wanted.len() - i,
            {
                let ghost before = outcome_views(out@);
                let o = if contains_name(actual, wanted[i]) {
                    VerifyOutcome::Passed { path: path.to_owned() }
                } else {
                    VerifyOutcome::HistoryActionMissing {
                        path: path.to_owned(),
                        record: expectation.record,
                        action: wanted[i],
                        actual: clone_names(actual),
                    }
                };
                assert(o@ == expected[i as int]);
                let ghost ov = o@;
                out.push(o);
                assert(outcome_views(out@) =~= before.push(ov));
                assert(expected.take(i + 1) =~= expected.take(i as int).push(ov));
                i = i + 1;
            }
            let n = wanted.len();
            let mut j: usize = 0;
            while j < unwanted.len()
                invariant
                    j <= unwanted@.len(),
                    n == wanted@.len(),
                    expected == action_findings(
                        path@,
                        expectation.record as nat,
                        actual@,
                        wanted@,
                        unwanted@,
                    ),
                    outcome_views(out@) == expected.take(n + j),
                decreases unwanted.len() - j,
            {
                let o = if contains_name(actual, unwanted[j]) {
                    VerifyOutcome::HistoryActionUnexpected {
                        path: path.to_owned(),
                        record: expectation.record,
                        action: unwanted[j],
                        actual: clone_names(actual),
                    }
                } else {
                    VerifyOutcome::Passed { path: path.to_owned() }
                };
                assert(o@ == expected[n + j]);
                let ghost before = outcome_views(out@);
                let ghost ov = o@;
                out.push(o);
                assert(outcome_views(out@) =~= before.push(ov));
                assert(expected.take(n + j + 1) =~= expected.take(n + j).push(ov));
                j = j + 1;
            }
            assert(expected.take(n + unwanted@.len()) =~= expected);
            out
        },
    }
}


// ---------------------------------------------------------------------------
// Case definitions
// ---------------------------------------------------------------------------
/// One step of a case: an optional command, its expected exit code, and
/// the named expectations checked before and after it.
#[derive(Debug)]
pub struct CaseStep {
    pub name: String,
    pub command: Option<Vec<String>>,
    pub exit_code: i32,
    pub expectations: Option<String>,
    pub before: Option<String>,
    pub history: Option<String>,
}

/// A container case: its scenario, named file expectations, named history
/// expectations (both ordered by name) and its steps.
#[derive(Debug)]
pub struct ContainerCase {
    id: String,
    scenario: String,
    description: String,
    expectations: Vec<(String, Vec<FilesystemExpectation>)>,
    history: Vec<(String, HistoryExpectation)>,
    steps: Vec<CaseStep>,
}

/// Why a case does not fit its scenario.
#[derive(Debug, PartialEq, Eq)]
pub enum CaseError {
    /// Case, expectation name, mount.
    UnknownMount(String, String, String),
    /// Case, expectation name, path.
    InvalidPath(String, String, String),
    /// Case, expectation name.
    ChecksumWithoutFile(String, String),
    /// Case, step, expectations name.
    MissingExpectations(String, String, String),
    /// Case, step, history expectation name.
    MissingHistory(String, String, String),
}

pub enum CaseErrorView {
    UnknownMount(Seq<char>, Seq<char>, Seq<char>),
    InvalidPath(Seq<char>, Seq<char>, Seq<char>),
    ChecksumWithoutFile(Seq<char>, Seq<char>),
    MissingExpectations(Seq<char>, Seq<char>, Seq<char>),
    MissingHistory(Seq<char>, Seq<char>, Seq<char>),
}

impl View for CaseError {
    type V = CaseErrorView;

    open spec fn view(&self) -> CaseErrorView {
        match self {
            CaseError::UnknownMount(a, b, c) => CaseErrorView::UnknownMount(a@, b@, c@),
            CaseError::InvalidPath(a, b, c) => CaseErrorView::InvalidPath(a@, b@, c@),
            CaseError::ChecksumWithoutFile(a, b) => CaseErrorView::ChecksumWithoutFile(a@, b@),
            CaseError::MissingExpectations(a, b, c) => CaseErrorView::MissingExpectations(
                a@,
                b@,
                c@,
            ),
            CaseError::MissingHistory(a, b, c) => CaseErrorView::MissingHistory(a@, b@, c@),
        }
    }
}

/// Whether some entry has the key `k`.
pub open spec fn has_key<V>(entries: Seq<(Seq<char>, V)>, k: Seq<char>) -> bool {
    exists|i: int| 0 <= i < entries.len() && (#[trigger] entries[i]).0 == k
}

/// Whether a path goes up (a `..` component).
pub open spec fn goes_up(cs: Seq<ComponentView>) -> bool {
    exists|i: int| 0 <= i < cs.len() && component_text(#[trigger] cs[i], seq!['/']) == ".."@
}

/// Why a reference from an expectation to a mount and path is wrong.
pub open spec fn path_ref_error(
    case_id: Seq<char>,
    name: Seq<char>,
    mounts: Seq<(Seq<char>, Seq<char>)>,
    mount: Seq<char>,
    path: Seq<char>,
) -> Option<CaseErrorView> {
    if !has_key(mounts, mount) {
        Some(CaseErrorView::UnknownMount(case_id, name, mount))
    } else if utf8_is_absolute(path) || goes_up(utf8_components(path)) {
        Some(CaseErrorView::InvalidPath(case_id, name, path))
    } else {
        None
    }
}

/// A file expectation: (mount, path, exists, has checksum).
pub open spec fn fs_expectation_view(e: FilesystemExpectation) -> (Seq<char>, Seq<char>, bool, bool) {
    (e.mount@, e.path@, e.exists, e.checksum is Some)
}

/// The first error among the file expectations of one name.
pub open spec fn expectation_list_error(
    case_id: Seq<char>,
    name: Seq<char>,
    mounts: Seq<(Seq<char>, Seq<char>)>,
    es: Seq<(Seq<char>, Seq<char>, bool, bool)>,
) -> Option<CaseErrorView>
    decreases es.len(),
{
    if es.len() == 0 {
        None
    } else {
        match path_ref_error(case_id, name, mounts, es[0].0, es[0].1) {
            Some(e) => Some(e),
            None => if !es[0].2 && es[0].3 {
                Some(CaseErrorView::ChecksumWithoutFile(case_id, name))
            } else {
                expectation_list_error(case_id, name, mounts, es.drop_first())
            },
        }
    }
}

/// The first error among named groups of file expectations.
pub open spec fn expectation_groups_error(
    case_id: Seq<char>,
    mounts: Seq<(Seq<char>, Seq<char>)>,
    groups: Seq<(Seq<char>, Seq<(Seq<char>, Seq<char>, bool, bool)>)>,
) -> Option<CaseErrorView>
    decreases groups.len(),
{
    if groups.len() == 0 {
        None
    } else {
        match expectation_list_error(case_id, groups[0].0, mounts, groups[0].1) {
            Some(e) => Some(e),
            None => expectation_groups_error(case_id, mounts, groups.drop_first()),
        }
    }
}

/// The first error among named history expectations: (name, mount, path).
pub open spec fn history_refs_error(
    case_id: Seq<char>,
    mounts: Seq<(Seq<char>, Seq<char>)>,
    hs: Seq<(Seq<char>, (Seq<char>, Seq<char>))>,
) -> Option<CaseErrorView>
    decreases hs.len(),
{
    if hs.len() == 0 {
        None
    } else {
        match path_ref_error(case_id, hs[0].0, mounts, hs[0].1.0, hs[0].1.1) {
            Some(e) => Some(e),
            None => history_refs_error(case_id, mounts, hs.drop_first()),
        }
    }
}

/// A step: (name, before, expectations, history).
pub open spec fn step_view(s: CaseStep) -> (
    Seq<char>,
    Option<Seq<char>>,
    Option<Seq<char>>,
    Option<Seq<char>>,
) {
    (
        s.name@,
        match s.before {
            Some(b) => Some(b@),
            None => None,
        },
        match s.expectations {
            Some(b) => Some(b@),
            None => None,
        },
        match s.history {
            Some(b) => Some(b@),
            None => None,
        },
    )
}

/// The first error among the steps' references to expectations.
pub open spec fn steps_error<A, B>(
    case_id: Seq<char>,
    groups: Seq<(Seq<char>, A)>,
    history: Seq<(Seq<char>, B)>,
    steps: Seq<(Seq<char>, Option<Seq<char>>, Option<Seq<char>>, Option<Seq<char>>)>,
) -> Option<CaseErrorView>
    decreases steps.len(),
{
    if steps.len() == 0 {
        None
    } else {
        let (name, before, exps, hist) = steps[0];
        if before is Some && !has_key(groups, before->0) {
            Some(CaseErrorView::MissingExpectations(case_id, name, before->0))
        } else if exps is Some && !has_key(groups, exps->0) {
            Some(CaseErrorView::MissingExpectations(case_id, name, exps->0))
        } else if hist is Some && !has_key(history, hist->0) {
            Some(CaseErrorView::MissingHistory(case_id, name, hist->0))
        } else {
            steps_error(case_id, groups, history, steps.drop_first())
        }
    }
}

/// Views of the named groups of file expectations.
pub open spec fn group_views(g: Seq<(String, Vec<FilesystemExpectation>)>) -> Seq<
    (Seq<char>, Seq<(Seq<char>, Seq<char>, bool, bool)>),
> {
    g.map_values(
        |p: (String, Vec<FilesystemExpectation>)|
            (p.0@, p.1@.map_values(|e: FilesystemExpectation| fs_expectation_view(e))),
    )
}

/// Views of the named history expectations: (name, (mount, path)).
pub open spec fn history_ref_views(h: Seq<(String, HistoryExpectation)>) -> Seq<
    (Seq<char>, (Seq<char>, Seq<char>)),
> {
    h.map_values(|p: (String, HistoryExpectation)| (p.0@, (p.1.mount@, p.1.path@)))
}

/// The first error of a case against its scenario's mounts.
pub open spec fn case_error_spec(
    case_id: Seq<char>,
    mounts: Seq<(Seq<char>, Seq<char>)>,
    groups: Seq<(Seq<char>, Seq<(Seq<char>, Seq<char>, bool, bool)>)>,
    history: Seq<(Seq<char>, (Seq<char>, Seq<char>))>,
    steps: Seq<(Seq<char>, Option<Seq<char>>, Option<Seq<char>>, Option<Seq<char>>)>,
) -> Option<CaseErrorView> {
    match expectation_groups_error(case_id, mounts, groups) {
        Some(e) => Some(e),
        None => match history_refs_error(case_id, mounts, history) {
            Some(e) => Some(e),
            None => steps_error(case_id, groups, history, steps),
        },
    }
}

fn has_key_exec<V>(entries: &Vec<(String, V)>, k: &str) -> (r: bool)
    ensures
        r == has_key(entries@.map_values(|p: (String, V)| (p.0@, ())), k@),
{
    let ghost ev = entries@.map_values(|p: (String, V)| (p.0@, ()));
    let kc = chars_of(k);
    let mut i: usize = 0;
    while i < entries.len()
        invariant
            i <= entries@.len(),
            ev == entries@.map_values(|p: (String, V)| (p.0@, ())),
            kc@ == k@,
            forall|j: int| 0 <= j < i ==> (#[trigger] ev[j]).0 != k@,
        decreases entries.len() - i,
    {
        let c = chars_of(entries[i].0.as_str());
        assert(ev[i as int].0 == entries@[i as int].0@);
        if chars_eq(&c, &kc) {
            return true;
        }
        i = i + 1;
    }
    false
}

proof fn lemma_has_key_keys<A, B>(a: Seq<(Seq<char>, A)>, b: Seq<(Seq<char>, B)>, k: Seq<char>)
    requires
        a.len() == b.len(),
        forall|i: int| 0 <= i < a.len() ==> (#[trigger] a[i]).0 == b[i].0,
    ensures
        has_key(a, k) == has_key(b, k),
{
    if has_key(a, k) {
        let i = choose|i: int| 0 <= i < a.len() && (#[trigger] a[i]).0 == k;
        assert(b[i].0 == k);
    }
    if has_key(b, k) {
        let i = choose|i: int| 0 <= i < b.len() && (#[trigger] b[i]).0 == k;
        assert(a[i].0 == k);
    }
}

fn goes_up_exec(path: &str) -> (r: bool)
    ensures
        r == goes_up(utf8_components(path@)),
{
    let cs = components(path);
    let ghost cv = component_views(cs@);
    let up = chars_of("..");
    let mut i: usize = 0;
    while i < cs.len()
        invariant
            i <= cs@.len(),
            cv == component_views(cs@),
            cv == utf8_components(path@),
            up@ == ".."@,
            forall|j: int| 0 <= j < i ==> component_text(#[trigger] cv[j], seq!['/']) != ".."@,
        decreases cs.len() - i,
    {
        let t = crate::paths::component_string(&cs[i], '/');
        let tc = chars_of(t.as_str());
        assert(cv[i as int] == cs@[i as int]@);
        if chars_eq(&tc, &up) {
            return true;
        }
        i = i + 1;
    }
    false
}

fn path_ref_check(
    case_id: &str,
    name: &str,
    mounts: &Vec<(String, String)>,
    mount: &str,
    path: &str,
) -> (r: Result<(), CaseError>)
    ensures
        match path_ref_error(case_id@, name@, pair_views(mounts@), mount@, path@) {
            Some(e) => r matches Err(x) && x@ == e,
            None => r is Ok,
        },
{
    let known = has_key_exec(mounts, mount);
    proof {
        let a = mounts@.map_values(|p: (String, String)| (p.0@, ()));
        lemma_has_key_keys(a, pair_views(mounts@), mount@);
    }
    if !known {
        return Err(CaseError::UnknownMount(case_id.to_owned(), name.to_owned(), mount.to_owned()));
    }
    if is_absolute(path) || goes_up_exec(path) {
        return Err(CaseError::InvalidPath(case_id.to_owned(), name.to_owned(), path.to_owned()));
    }
    Ok(())
}

impl ContainerCase {
    pub fn new(
        id: String,
        scenario: String,
        description: String,
        expectations: Vec<(String, Vec<FilesystemExpectation>)>,
        history: Vec<(String, HistoryExpectation)>,
        steps: Vec<CaseStep>,
    ) -> (r: Self)
        ensures
            r.id_spec() == id@,
            r.scenario_spec() == scenario@,
            r.description_spec() == description@,
            r.groups_spec() == group_views(expectations@),
            r.history_spec() == history_ref_views(history@),
            r.steps_spec() == steps@.map_values(|s: CaseStep| step_view(s)),
    {
        ContainerCase { id, scenario, description, expectations, history, steps }
    }

    pub closed spec fn id_spec(&self) -> Seq<char> {
        self.id@
    }

    pub closed spec fn scenario_spec(&self) -> Seq<char> {
        self.scenario@
    }

    pub closed spec fn description_spec(&self) -> Seq<char> {
        self.description@
    }

    pub closed spec fn groups_spec(&self) -> Seq<(Seq<char>, Seq<(Seq<char>, Seq<char>, bool, bool)>)> {
        group_views(self.expectations@)
    }

    pub closed spec fn history_spec(&self) -> Seq<(Seq<char>, (Seq<char>, Seq<char>))> {
        history_ref_views(self.history@)
    }

    pub closed spec fn steps_spec(&self) -> Seq<
        (Seq<char>, Option<Seq<char>>, Option<Seq<char>>, Option<Seq<char>>),
    > {
        self.steps@.map_values(|s: CaseStep| step_view(s))
    }

    pub fn id(&self) -> (r: &str)
        ensures
            r@ == self.id_spec(),
    {
        self.id.as_str()
    }

    pub fn scenario(&self) -> (r: &str)
        ensures
            r@ == self.scenario_spec(),
    {
        self.scenario.as_str()
    }

    pub fn description(&self) -> (r: &str)
        ensures
            r@ == self.description_spec(),
    {
        self.description.as_str()
    }

    pub fn steps(&self) -> (r: &[CaseStep])
        ensures
            r@.map_values(|s: CaseStep| step_view(s)) == self.steps_spec(),
    {
        self.steps.as_slice()
    }

    /// Checks the case against its scenario's mounts: every expectation
    /// names a known mount and a relative path that does not go up, no
    /// missing file has a checksum, and every step names existing
    /// expectations.
    pub fn validate(&self, mounts: &Vec<(String, String)>) -> (r: Result<(), CaseError>)
        ensures
            match case_error_spec(
                self.id_spec(),
                pair_views(mounts@),
                self.groups_spec(),
                self.history_spec(),
                self.steps_spec(),
            ) {
                Some(e) => r matches Err(x) && x@ == e,
                None => r is Ok,
            },
    {
        let ghost mv = pair_views(mounts@);
        let ghost gv = group_views(self.expectations@);
        let ghost hv = history_ref_views(self.history@);
        let ghost sv = self.steps@.map_values(|s: CaseStep| step_view(s));
        let ghost cid = self.id@;
        assert(gv.skip(0) =~= gv);
        let mut g: usize = 0;
        while g < self.expectations.len()
            invariant
                g <= self.expectations@.len(),
                gv == group_views(self.expectations@),
                mv == pair_views(mounts@),
                cid == self.id@,
                expectation_groups_error(cid, mv, gv) == expectation_groups_error(
                    cid,
                    mv,
                    gv.skip(g as int),
                ),
            decreases self.expectations.len() - g,
        {
            let (name, exps) = &self.expectations[g];
            let ghost ev = exps@.map_values(|e: FilesystemExpectation| fs_expectation_view(e));
            assert(gv[g as int] == (name@, ev));
            assert(gv.skip(g as int)[0] == gv[g as int]);
            assert(ev.skip(0) =~= ev);
            let mut k: usize = 0;
            while k < exps.len()
                invariant
                    k <= exps@.len(),
                    ev == exps@.map_values(|e: FilesystemExpectation| fs_expectation_view(e)),
                    mv == pair_views(mounts@),
                    cid == self.id@,
                    gv == group_views(self.expectations@),
                    g < gv.len(),
                    gv.skip(g as int)[0] == (name@, ev),
                    expectation_groups_error(cid, mv, gv) == expectation_groups_error(
                        cid,
                        mv,
                        gv.skip(g as int),
                    ),
                    expectation_list_error(cid, name@, mv, ev) == expectation_list_error(
                        cid,
                        name@,
                        mv,
                        ev.skip(k as int),
                    ),
                decreases exps.len() - k,
            {
                let e = &exps[k];
                assert(ev.skip(k as int)[0] == ev[k as int]);
                assert(ev[k as int] == fs_expectation_view(*e));
                match path_ref_check(self.id.as_str(), name.as_str(), mounts, e.mount.as_str(), e.path.as_str()) {
                    Err(x) => {
                        return Err(x);
                    },
                    Ok(()) => {},
                }
                if !e.exists && e.checksum.is_some() {
                    return Err(CaseError::ChecksumWithoutFile(self.id.clone(), name.clone()));
                }
                assert(ev.skip(k as int).drop_first() =~= ev.skip(k + 1));
                k = k + 1;
            }
            assert(ev.skip(exps@.len() as int) =~= Seq::<(Seq<char>, Seq<char>, bool, bool)>::empty());
            assert(gv.skip(g as int).drop_first() =~= gv.skip(g + 1));
            g = g + 1;
        }
        assert(gv.skip(g as int) =~= Seq::<(Seq<char>, Seq<(Seq<char>, Seq<char>, bool, bool)>)>::empty());
        assert(hv.skip(0) =~= hv);
        let mut h: usize = 0;
        while h < self.history.len()
            invariant
                h <= self.history@.len(),
                hv == history_ref_views(self.history@),
                mv == pair_views(mounts@),
                cid == self.id@,
                gv == group_views(self.expectations@),
                expectation_groups_error(cid, mv, gv) is None,
                history_refs_error(cid, mv, hv) == history_refs_error(cid, mv, hv.skip(h as int)),
            decreases self.history.len() - h,
        {
            let (name, he) = &self.history[h];
            assert(hv.skip(h as int)[0] == hv[h as int]);
            assert(hv[h as int] == (name@, (he.mount@, he.path@)));
            match path_ref_check(self.id.as_str(), name.as_str(), mounts, he.mount.as_str(), he.path.as_str()) {
                Err(x) => {
                    return Err(x);
                },
                Ok(()) => {},
            }
            assert(hv.skip(h as int).drop_first() =~= hv.skip(h + 1));
            h = h + 1;
        }
        assert(hv.skip(h as int) =~= Seq::<(Seq<char>, (Seq<char>, Seq<char>))>::empty());
        assert(sv.skip(0) =~= sv);
        let mut t: usize = 0;
        while t < self.steps.len()
            invariant
                t <= self.steps@.len(),
                sv == self.steps@.map_values(|s: CaseStep| step_view(s)),
                gv == group_views(self.expectations@),
                hv == history_ref_views(self.history@),
                cid == self.id@,
                mv == pair_views(mounts@),
                expectation_groups_error(cid, mv, gv) is None,
                history_refs_error(cid, mv, hv) is None,
                steps_error(cid, gv, hv, sv) == steps_error(cid, gv, hv, sv.skip(t as int)),
            decreases self.steps.len() - t,
        {
            let step = &self.steps[t];
            assert(sv.skip(t as int)[0] == sv[t as int]);
            assert(sv[t as int] == step_view(*step));
            match &step.before {
                Some(b) => {
                    let known = has_key_exec(&self.expectations, b.as_str());
                    proof {
                        let a = self.expectations@.map_values(
                            |p: (String, Vec<FilesystemExpectation>)| (p.0@, ()),
                        );
                        lemma_has_key_keys(a, gv, b@);
                    }
                    if !known {
                        return Err(
                            CaseError::MissingExpectations(self.id.clone(), step.name.clone(), b.clone()),
                        );
                    }
                },
                None => {},
            }
            match &step.expectations {
                Some(b) => {
                    let known = has_key_exec(&self.expectations, b.as_str());
                    proof {
                        let a = self.expectations@.map_values(
                            |p: (String, Vec<FilesystemExpectation>)| (p.0@, ()),
                        );
                        lemma_has_key_keys(a, gv, b@);
                    }
                    if !known {
                        return Err(
                            CaseError::MissingExpectations(self.id.clone(), step.name.clone(), b.clone()),
                        );
                    }
                },
                None => {},
            }
            match &step.history {
                Some(b) => {
                    let known = has_key_exec(&self.history, b.as_str());
                    proof {
                        let a = self.history@.map_values(|p: (String, HistoryExpectation)| (p.0@, ()));
                        lemma_has_key_keys(a, hv, b@);
                    }
                    if !known {
                        return Err(
                            CaseError::MissingHistory(self.id.clone(), step.name.clone(), b.clone()),
                        );
                    }
                },
                None => {},
            }
            assert(sv.skip(t as int).drop_first() =~= sv.skip(t + 1));
            t = t + 1;
        }
        assert(sv.skip(t as int) =~= Seq::<(Seq<char>, Option<Seq<char>>, Option<Seq<char>>, Option<Seq<char>>)>::empty());
        Ok(())
    }
}


// ---------------------------------------------------------------------------
// Requests to the verifier
// ---------------------------------------------------------------------------
/// Mathematical view of a [`FilesystemExpectation`].
pub struct FilesystemExpectationView {
    pub mount: Seq<char>,
    pub path: Seq<char>,
    pub exists: bool,
    pub checksum: Option<Seq<char>>,
}

/// Mathematical view of a [`HistoryExpectation`].
pub struct HistoryExpectationView {
    pub mount: Seq<char>,
    pub path: Seq<char>,
    pub record: nat,
    pub contains_actions: Seq<ActionName>,
    pub does_not_contain_actions: Seq<ActionName>,
}

impl View for FilesystemExpectation {
    type V = FilesystemExpectationView;

    open spec fn view(&self) -> FilesystemExpectationView {
        FilesystemExpectationView {
            mount: self.mount@,
            path: self.path@,
            exists: self.exists,
            checksum: match self.checksum {
                Some(c) => Some(c@),
                None => None,
            },
        }
    }
}

impl View for HistoryExpectation {
    type V = HistoryExpectationView;

    open spec fn view(&self) -> HistoryExpectationView {
        HistoryExpectationView {
            mount: self.mount@,
            path: self.path@,
            record: self.record as nat,
            contains_actions: self.contains_actions@,
            does_not_contain_actions: self.does_not_contain_actions@,
        }
    }
}

impl FilesystemExpectation {
    pub fn duplicate(&self) -> (r: Self)
        ensures
            r@ == self@,
    {
        FilesystemExpectation {
            mount: self.mount.clone(),
            path: self.path.clone(),
            exists: self.exists,
            checksum: match &self.checksum {
                Some(c) => Some(c.clone()),
                None => None,
            },
        }
    }
}

impl HistoryExpectation {
    pub fn duplicate(&self) -> (r: Self)
        ensures
            r@ == self@,
    {
        HistoryExpectation {
            mount: self.mount.clone(),
            path: self.path.clone(),
            record: self.record,
            contains_actions: clone_names(&self.contains_actions),
            does_not_contain_actions: clone_names(&self.does_not_contain_actions),
        }
    }
}

/// The value of the first entry with key `k`.
pub open spec fn lookup_first<V>(entries: Seq<(Seq<char>, V)>, k: Seq<char>) -> Option<V>
    decreases entries.len(),
{
    if entries.len() == 0 {
        None
    } else if entries[0].0 == k {
        Some(entries[0].1)
    } else {
        lookup_first(entries.drop_first(), k)
    }
}

/// Full views of the named groups of file expectations.
pub open spec fn group_full_views(g: Seq<(String, Vec<FilesystemExpectation>)>) -> Seq<
    (Seq<char>, Seq<FilesystemExpectationView>),
> {
    g.map_values(
        |p: (String, Vec<FilesystemExpectation>)|
            (p.0@, p.1@.map_values(|e: FilesystemExpectation| e@)),
    )
}

/// Full views of the named history expectations.
pub open spec fn history_full_views(h: Seq<(String, HistoryExpectation)>) -> Seq<
    (Seq<char>, HistoryExpectationView),
> {
    h.map_values(|p: (String, HistoryExpectation)| (p.0@, p.1@))
}

/// The expectations a step asks the verifier about: the named file
/// expectations (none for an empty name) and the named history
/// expectation, if any; a name the case lacks is an error.
pub open spec fn step_request_spec(
    case_id: Seq<char>,
    groups: Seq<(Seq<char>, Seq<FilesystemExpectationView>)>,
    history: Seq<(Seq<char>, HistoryExpectationView)>,
    expectations_name: Seq<char>,
    history_name: Option<Seq<char>>,
    step_name: Seq<char>,
) -> Result<(Seq<FilesystemExpectationView>, Seq<HistoryExpectationView>), CaseErrorView> {
    let fs = if expectations_name.len() == 0 {
        Some(Seq::<FilesystemExpectationView>::empty())
    } else {
        lookup_first(groups, expectations_name)
    };
    match fs {
        None => Err(CaseErrorView::MissingExpectations(case_id, step_name, expectations_name)),
        Some(f) => match history_name {
            None => Ok((f, seq![])),
            Some(h) => match lookup_first(history, h) {
                None => Err(CaseErrorView::MissingHistory(case_id, step_name, h)),
                Some(e) => Ok((f, seq![e])),
            },
        },
    }
}

impl ContainerCase {
    pub closed spec fn groups_full_spec(&self) -> Seq<(Seq<char>, Seq<FilesystemExpectationView>)> {
        group_full_views(self.expectations@)
    }

    pub closed spec fn history_full_spec(&self) -> Seq<(Seq<char>, HistoryExpectationView)> {
        history_full_views(self.history@)
    }

    fn find_group(&self, name: &str) -> (r: Option<Vec<FilesystemExpectation>>)
        ensures
            match lookup_first(self.groups_full_spec(), name@) {
                Some(v) => r matches Some(x) && x@.map_values(|e: FilesystemExpectation| e@) == v,
                None => r is None,
            },
    {
        let ghost gv = group_full_views(self.expectations@);
        let nc = chars_of(name);
        let mut i: usize = 0;
        assert(gv.skip(0) =~= gv);
        while i < self.expectations.len()
            invariant
                i <= self.expectations@.len(),
                gv == group_full_views(self.expectations@),
                nc@ == name@,
                lookup_first(gv, name@) == lookup_first(gv.skip(i as int), name@),
            decreases self.expectations.len() - i,
        {
            let c = chars_of(self.expectations[i].0.as_str());
            assert(gv.skip(i as int)[0] == gv[i as int]);
            if chars_eq(&c, &nc) {
                let list = &self.expectations[i].1;
                let mut out: Vec<FilesystemExpectation> = Vec::new();
                let mut k: usize = 0;
                while k < list.len()
                    invariant
                        k <= list@.len(),
                        out@.map_values(|e: FilesystemExpectation| e@) == list@.map_values(
                            |e: FilesystemExpectation| e@,
                        ).take(k as int),
                    decreases list.len() - k,
                {
                    let ghost before = out@.map_values(|e: FilesystemExpectation| e@);
                    out.push(list[k].duplicate());
                    assert(out@.map_values(|e: FilesystemExpectation| e@) =~= before.push(
                        list@[k as int]@,
                    ));
                    assert(list@.map_values(|e: FilesystemExpectation| e@).take(k + 1)
                        =~= list@.map_values(|e: FilesystemExpectation| e@).take(k as int).push(
                        list@[k as int]@,
                    ));
                    k = k + 1;
                }
                assert(list@.map_values(|e: FilesystemExpectation| e@).take(list@.len() as int)
                    =~= list@.map_values(|e: FilesystemExpectation| e@));
                return Some(out);
            }
            assert(gv.skip(i as int).drop_first() =~= gv.skip(i + 1));
            i = i + 1;
        }
        assert(gv.skip(i as int) =~= Seq::<(Seq<char>, Seq<FilesystemExpectationView>)>::empty());
        None
    }

    fn find_history(&self, name: &str) -> (r: Option<HistoryExpectation>)
        ensures
            match lookup_first(self.history_full_spec(), name@) {
                Some(v) => r matches Some(x) && x@ == v,
                None => r is None,
            },
    {
        let ghost hv = history_full_views(self.history@);
        let nc = chars_of(name);
        let mut i: usize = 0;
        assert(hv.skip(0) =~= hv);
        while i < self.history.len()
            invariant
                i <= self.history@.len(),
                hv == history_full_views(self.history@),
                nc@ == name@,
                lookup_first(hv, name@) == lookup_first(hv.skip(i as int), name@),
            decreases self.history.len() - i,
        {
            let c = chars_of(self.history[i].0.as_str());
            assert(hv.skip(i as int)[0] == hv[i as int]);
            if chars_eq(&c, &nc) {
                return Some(self.history[i].1.duplicate());
            }
            assert(hv.skip(i as int).drop_first() =~= hv.skip(i + 1));
            i = i + 1;
        }
        assert(hv.skip(i as int) =~= Seq::<(Seq<char>, HistoryExpectationView)>::empty());
        None
    }

    /// The verifier request of a step: the scenario's mounts (alias and
    /// container path) with the step's named expectations.
    pub fn step_request(
        &self,
        mounts: &Vec<(String, String)>,
        expectations_name: &str,
        history_name: Option<&str>,
        step_name: &str,
    ) -> (r: Result<VerifyRequest, CaseError>)
        ensures
            match step_request_spec(
                self.id_spec(),
                self.groups_full_spec(),
                self.history_full_spec(),
                expectations_name@,
                match history_name {
                    Some(h) => Some(h@),
                    None => None,
                },
                step_name@,
            ) {
                Ok((f, h)) => r matches Ok(req) && pair_views(req.mounts@) == pair_views(mounts@)
                    && req.filesystem@.map_values(|e: FilesystemExpectation| e@) == f
                    && req.history@.map_values(|e: HistoryExpectation| e@) == h,
                Err(e) => r matches Err(x) && x@ == e,
            },
    {
        let en = chars_of(expectations_name);
        let filesystem: Vec<FilesystemExpectation> = if en.len() == 0 {
            let v: Vec<FilesystemExpectation> = Vec::new();
            assert(v@.map_values(|e: FilesystemExpectation| e@) =~= Seq::<
                FilesystemExpectationView,
            >::empty());
            v
        } else {
            match self.find_group(expectations_name) {
                Some(v) => v,
                None => {
                    return Err(
                        CaseError::MissingExpectations(
                            self.id.clone(),
                            step_name.to_owned(),
                            expectations_name.to_owned(),
                        ),
                    );
                },
            }
        };
        let mut history: Vec<HistoryExpectation> = Vec::new();
        match history_name {
            None => {},
            Some(h) => match self.find_history(h) {
                Some(e) => {
                    history.push(e);
                },
                None => {
                    return Err(
                        CaseError::MissingHistory(self.id.clone(), step_name.to_owned(), h.to_owned()),
                    );
                },
            },
        }
        assert(history_name is None ==> history@.map_values(|e: HistoryExpectation| e@) =~= Seq::<
            HistoryExpectationView,
        >::empty());
        assert(history_name is Some ==> history@.map_values(|e: HistoryExpectation| e@) =~= seq![
            history@[0]@,
        ]);
        let mut ms: Vec<(String, String)> = Vec::new();
        let mut i: usize = 0;
        while i < mounts.len()
            invariant
                i <= mounts@.len(),
                pair_views(ms@) == pair_views(mounts@).take(i as int),
            decreases mounts.len() - i,
        {
            let ghost before = pair_views(ms@);
            ms.push((mounts[i].0.clone(), mounts[i].1.clone()));
            assert(pair_views(ms@) =~= before.push((mounts@[i as int].0@, mounts@[i as int].1@)));
            assert(pair_views(mounts@).take(i + 1) =~= pair_views(mounts@).take(i as int).push(
                (mounts@[i as int].0@, mounts@[i as int].1@),
            ));
            i = i + 1;
        }
        assert(pair_views(mounts@).take(mounts@.len() as int) =~= pair_views(mounts@));
        Ok(VerifyRequest { mounts: ms, filesystem, history })
    }
}


// ---------------------------------------------------------------------------
// Images and runtimes
// ---------------------------------------------------------------------------
/// The image the suite runs in, and whether to build it.
#[derive(Debug)]
pub struct ImageConfig {
    pub image: String,
    pub skip_build: bool,
    pub rebuild: bool,
}

/// The default image name.
pub fn default_image() -> (r: &'static str)
    ensures
        r@ == "tfmttools-test-container:local"@,
{
    "tfmttools-test-container:local"
}

/// How the image is built.
#[derive(Debug, PartialEq, Eq)]
pub struct ImageSource {
    pub build_context: String,
    pub containerfile: String,
    pub builder_base: String,
    pub runtime_base: String,
}

impl Default for ImageSource {
    fn default() -> (r: Self)
        ensures
            r.build_context@ == "."@,
            r.containerfile@ == "tests/container/Containerfile"@,
            r.builder_base@ == "rust:1.89-bookworm"@,
            r.runtime_base@ == "debian:bookworm-slim"@,
    {
        ImageSource {
            build_context: ".".to_owned(),
            containerfile: "tests/container/Containerfile".to_owned(),
            builder_base: "rust:1.89-bookworm".to_owned(),
            runtime_base: "debian:bookworm-slim".to_owned(),
        }
    }
}

/// The image a suite ran in.
#[derive(Debug, PartialEq, Eq)]
pub struct ImageInfo {
    pub build: ImageBuild,
    pub id: Option<String>,
    pub source: ImageSource,
}

/// Why the image could not be had, with the build's output.
#[derive(Debug)]
pub struct ImageBuildFailure {
    pub reason: String,
    pub stdout: Option<String>,
    pub stderr: Option<String>,
}

impl ImageBuildFailure {
    pub fn new(reason: String, stdout: Option<String>, stderr: Option<String>) -> (r: Self)
        ensures
            r.reason@ == reason@,
            r.stdout == stdout,
            r.stderr == stderr,
    {
        ImageBuildFailure { reason, stdout, stderr }
    }
}

/// How the image is had: skipped when asked, kept when present and no
/// rebuild is asked, else built.
pub open spec fn image_build_choice(skip_build: bool, rebuild: bool, present: bool) -> Option<ImageBuild> {
    if skip_build {
        Some(ImageBuild::Skipped)
    } else if !rebuild && present {
        Some(ImageBuild::AlreadyPresent)
    } else {
        None
    }
}

/// Whether the image must be looked up: only when not skipping and not
/// rebuilding.
pub fn image_needs_lookup(config: &ImageConfig) -> (r: bool)
    ensures
        r == (!config.skip_build && !config.rebuild),
{
    !config.skip_build && !config.rebuild
}

/// The image's state when no build is needed (`None` asks for a build).
pub fn image_build_decision(config: &ImageConfig, present: bool) -> (r: Option<ImageBuild>)
    ensures
        r == image_build_choice(config.skip_build, config.rebuild, present),
{
    if config.skip_build {
        Some(ImageBuild::Skipped)
    } else if !config.rebuild && present {
        Some(ImageBuild::AlreadyPresent)
    } else {
        None
    }
}

/// A container runtime, by its command (`docker` or `podman`).
#[derive(Debug)]
pub struct ContainerRuntime {
    command: String,
}

impl ContainerRuntime {
    pub fn new(command: String) -> (r: Self)
        ensures
            r.command_spec() == command@,
    {
        ContainerRuntime { command }
    }

    pub closed spec fn command_spec(&self) -> Seq<char> {
        self.command@
    }

    pub fn command(&self) -> (r: &str)
        ensures
            r@ == self.command_spec(),
    {
        self.command.as_str()
    }
}

/// The runtimes tried, in order, when none is named.
pub fn runtime_candidates() -> (r: Vec<String>)
    ensures
        r@.map_values(|s: String| s@) == seq!["docker"@, "podman"@],
{
    let mut v: Vec<String> = Vec::new();
    v.push("docker".to_owned());
    v.push("podman".to_owned());
    assert(v@.map_values(|s: String| s@) =~= seq!["docker"@, "podman"@]);
    v
}

} // verus!
