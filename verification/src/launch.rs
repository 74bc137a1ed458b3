//! Running a case in containers: the command lines of the setup, the
//! application and the verifier containers, the identifier of a suite run,
//! the messages of timed-out commands, and which steps of a case run.

use crate::container::{
    command_with_config_directory, command_with_config_spec, find_volume, image_build_choice,
    image_build_decision, pair_views, CaseResources, CaseStep, ImageBuild, ImageBuildFailure,
    ImageConfig, ImageInfo, ImageSource,
};
use crate::text::{
    chars_eq, chars_of, decimal_spec, is_whitespace_char, push_all, push_str, string_from_chars,
    trim_chars, trim_spec, views_of,
};
use vstd::prelude::*;

verus! {

// ---------------------------------------------------------------------------
// Command lines
// ---------------------------------------------------------------------------
/// A mount of the scenario for which no volume was created.
#[derive(Debug, PartialEq, Eq)]
pub struct MissingVolume {
    pub alias: String,
}

/// The `--mount` arguments that put each mount (alias and container path)
/// on its volume, in order; `Err` names the first mount without a volume.
pub open spec fn volume_mounts_spec(
    volumes: Seq<(Seq<char>, Seq<char>)>,
    mounts: Seq<(Seq<char>, Seq<char>)>,
) -> Result<Seq<Seq<char>>, Seq<char>>
    decreases mounts.len(),
{
    if mounts.len() == 0 {
        Ok(seq![])
    } else {
        match volume_mounts_spec(volumes, mounts.drop_last()) {
            Err(a) => Err(a),
            Ok(rest) => match find_volume(volumes, mounts.last().0) {
                None => Err(mounts.last().0),
                Some(v) => Ok(
                    rest + seq!["--mount"@, "type=volume,src="@ + v + ",dst="@ + mounts.last().1],
                ),
            },
        }
    }
}

/// Whether the scenario has a mount named `config`.
pub open spec fn has_config_mount(mounts: Seq<(Seq<char>, Seq<char>)>) -> bool {
    exists|i: int| 0 <= i < mounts.len() && #[trigger] mounts[i].0 == "config"@
}

/// The start of the setup container's command line: as root, with a shell
/// as entry point and the fixtures mounted read-only.
pub open spec fn setup_head(workdir: Seq<char>, fixture_root: Seq<char>) -> Seq<Seq<char>> {
    seq![
        "run"@,
        "--rm"@,
        "--user"@,
        "0:0"@,
        "--workdir"@,
        workdir,
        "--entrypoint"@,
        "/bin/sh"@,
        "--mount"@,
        "type=bind,src="@ + fixture_root + ",dst=/fixtures,readonly"@,
    ]
}

/// The start of the application container's command line.
pub open spec fn app_head(workdir: Seq<char>) -> Seq<Seq<char>> {
    seq!["run"@, "--rm"@, "--user"@, "1000:1000"@, "--workdir"@, workdir]
}

/// The start of the verifier container's command line: the verifier as
/// entry point and the request folder mounted read-only.
pub open spec fn verifier_head(workdir: Seq<char>, request_dir: Seq<char>) -> Seq<Seq<char>> {
    seq![
        "run"@,
        "--rm"@,
        "--user"@,
        "1000:1000"@,
        "--workdir"@,
        workdir,
        "--entrypoint"@,
        "/usr/local/bin/tfmt-container-verify"@,
        "--mount"@,
        "type=bind,src="@ + request_dir + ",dst=/verify,readonly"@,
    ]
}

fn push_arg(out: &mut Vec<String>, s: &str)
    ensures
        views_of(final(out)@) == views_of(old(out)@).push(s@),
{
    let ghost before = views_of(out@);
    out.push(s.to_owned());
    assert(views_of(out@) =~= before.push(s@));
}

fn push_concat(out: &mut Vec<String>, a: &str, b: &str, c: &str)
    ensures
        views_of(final(out)@) == views_of(old(out)@).push(a@ + b@ + c@),
{
    let mut v: Vec<char> = Vec::new();
    push_str(&mut v, a);
    push_str(&mut v, b);
    push_str(&mut v, c);
    let s = string_from_chars(v.as_slice());
    let ghost before = views_of(out@);
    out.push(s);
    assert(views_of(out@) =~= before.push(a@ + b@ + c@));
}

/// Appends the `--mount` arguments of `mounts`.
fn push_volume_mounts(
    out: &mut Vec<String>,
    resources: &CaseResources,
    mounts: &Vec<(String, String)>,
) -> (r: Result<(), MissingVolume>)
    ensures
        match volume_mounts_spec(resources@.volumes, pair_views(mounts@)) {
            Ok(m) => r is Ok && views_of(final(out)@) == views_of(old(out)@) + m,
            Err(a) => r matches Err(e) && e.alias@ == a,
        },
{
    let ghost start = views_of(out@);
    let ghost vols = resources@.volumes;
    let ghost mv = pair_views(mounts@);
    let mut i: usize = 0;
    assert(mv.take(0) =~= Seq::<(Seq<char>, Seq<char>)>::empty());
    assert(start + Seq::<Seq<char>>::empty() =~= start);
    while i < mounts.len()
        invariant
            i <= mounts@.len(),
            mv == pair_views(mounts@),
            vols == resources@.volumes,
            volume_mounts_spec(vols, mv.take(i as int)) matches Ok(m) && views_of(out@) == start
                + m,
        decreases mounts.len() - i,
    {
        let ghost prefix = volume_mounts_spec(vols, mv.take(i as int))->Ok_0;
        assert(mv.take(i + 1).drop_last() =~= mv.take(i as int));
        assert(mv.take(i + 1).last() == (mounts@[i as int].0@, mounts@[i as int].1@));
        match resources.volume_name(mounts[i].0.as_str()) {
            None => {
                proof {
                    lemma_mounts_error_persists(vols, mv, i as int + 1);
                }
                return Err(MissingVolume { alias: mounts[i].0.clone() });
            },
            Some(v) => {
                push_arg(out, "--mount");
                let m = crate::container::volume_mount_arg(v.as_str(), mounts[i].1.as_str());
                let ghost before = views_of(out@);
                out.push(m);
                assert(views_of(out@) =~= before.push(
                    "type=volume,src="@ + v@ + ",dst="@ + mounts@[i as int].1@,
                ));
                assert(views_of(out@) =~= start + (prefix + seq![
                    "--mount"@,
                    "type=volume,src="@ + v@ + ",dst="@ + mounts@[i as int].1@,
                ]));
            },
        }
        i = i + 1;
    }
    assert(mv.take(mounts@.len() as int) =~= mv);
    Ok(())
}

/// Once some mount lacks a volume, every longer list of mounts fails too,
/// naming the same mount.
proof fn lemma_mounts_error_persists(
    vols: Seq<(Seq<char>, Seq<char>)>,
    mv: Seq<(Seq<char>, Seq<char>)>,
    k: int,
)
    requires
        0 < k <= mv.len(),
        volume_mounts_spec(vols, mv.take(k)) is Err,
    ensures
        volume_mounts_spec(vols, mv) == volume_mounts_spec(vols, mv.take(k)),
    decreases mv.len() - k,
{
    if k < mv.len() {
        assert(mv.take(k + 1).drop_last() =~= mv.take(k));
        lemma_mounts_error_persists(vols, mv, k + 1);
    } else {
        assert(mv.take(k) =~= mv);
    }
}

fn push_head(out: &mut Vec<String>, user: &str, workdir: &str)
    ensures
        views_of(final(out)@) == views_of(old(out)@) + seq![
            "run"@,
            "--rm"@,
            "--user"@,
            user@,
            "--workdir"@,
            workdir@,
        ],
{
    let ghost start = views_of(out@);
    push_arg(out, "run");
    push_arg(out, "--rm");
    push_arg(out, "--user");
    push_arg(out, user);
    push_arg(out, "--workdir");
    push_arg(out, workdir);
    assert(views_of(out@) =~= start + seq![
        "run"@,
        "--rm"@,
        "--user"@,
        user@,
        "--workdir"@,
        workdir@,
    ]);
}

/// The setup container's command line: it runs `script` with a login
/// shell, with the fixtures and every mount's volume mounted.
pub fn setup_container_args(
    resources: &CaseResources,
    mounts: &Vec<(String, String)>,
    workdir: &str,
    fixture_root: &str,
    image: &str,
    script: &str,
) -> (r: Result<Vec<String>, MissingVolume>)
    ensures
        match volume_mounts_spec(resources@.volumes, pair_views(mounts@)) {
            Ok(m) => r matches Ok(v) && views_of(v@) == setup_head(workdir@, fixture_root@) + m
                + seq![image@, "-lc"@, script@],
            Err(a) => r matches Err(e) && e.alias@ == a,
        },
{
    let mut out: Vec<String> = Vec::new();
    push_head(&mut out, "0:0", workdir);
    push_arg(&mut out, "--entrypoint");
    push_arg(&mut out, "/bin/sh");
    push_arg(&mut out, "--mount");
    push_concat(&mut out, "type=bind,src=", fixture_root, ",dst=/fixtures,readonly");
    assert(views_of(out@) =~= setup_head(workdir@, fixture_root@));
    let ghost head = views_of(out@);
    match push_volume_mounts(&mut out, resources, mounts) {
        Err(e) => {
            return Err(e);
        },
        Ok(()) => {},
    }
    let ghost with_mounts = views_of(out@);
    push_arg(&mut out, image);
    push_arg(&mut out, "-lc");
    push_arg(&mut out, script);
    assert(views_of(out@) =~= with_mounts + seq![image@, "-lc"@, script@]);
    Ok(out)
}

/// Whether one of the mounts is named `config`.
fn mounts_have_config(mounts: &Vec<(String, String)>) -> (r: bool)
    ensures
        r == has_config_mount(pair_views(mounts@)),
{
    let ghost mv = pair_views(mounts@);
    let config = chars_of("config");
    let mut i: usize = 0;
    while i < mounts.len()
        invariant
            i <= mounts@.len(),
            mv == pair_views(mounts@),
            config@ == "config"@,
            forall|k: int| 0 <= k < i ==> mv[k].0 != "config"@,
        decreases mounts.len() - i,
    {
        let a = chars_of(mounts[i].0.as_str());
        assert(mv[i as int].0 == mounts@[i as int].0@);
        if chars_eq(&a, &config) {
            assert(mv[i as int].0 == "config"@);
            return true;
        }
        i = i + 1;
    }
    false
}

/// The application container's command line: the image, then the
/// command (given the configuration folder when a `config` mount exists
/// and the command names none).
pub fn app_container_args(
    resources: &CaseResources,
    mounts: &Vec<(String, String)>,
    workdir: &str,
    image: &str,
    command: &[String],
) -> (r: Result<Vec<String>, MissingVolume>)
    ensures
        match volume_mounts_spec(resources@.volumes, pair_views(mounts@)) {
            Ok(m) => r matches Ok(v) && views_of(v@) == app_head(workdir@) + m + seq![image@]
                + command_with_config_spec(
                has_config_mount(pair_views(mounts@)),
                views_of(command@),
            ),
            Err(a) => r matches Err(e) && e.alias@ == a,
        },
{
    let mut out: Vec<String> = Vec::new();
    push_head(&mut out, "1000:1000", workdir);
    assert(views_of(out@) =~= app_head(workdir@));
    match push_volume_mounts(&mut out, resources, mounts) {
        Err(e) => {
            return Err(e);
        },
        Ok(()) => {},
    }
    push_arg(&mut out, image);
    let ghost before = views_of(out@);
    let has_config = mounts_have_config(mounts);
    let cmd = command_with_config_directory(has_config, command);
    let ghost cv = views_of(cmd@);
    let mut i: usize = 0;
    while i < cmd.len()
        invariant
            i <= cmd@.len(),
            cv == views_of(cmd@),
            views_of(out@) == before + cv.take(i as int),
        decreases cmd.len() - i,
    {
        let ghost b = views_of(out@);
        out.push(cmd[i].clone());
        assert(views_of(out@) =~= b.push(cv[i as int]));
        assert(cv.take(i + 1) =~= cv.take(i as int).push(cv[i as int]));
        i = i + 1;
    }
    assert(cv.take(cmd@.len() as int) =~= cv);
    assert(cv == views_of(cmd@));
    Ok(out)
}

/// The verifier container's command line: the request in the mounted
/// request folder.
pub fn verifier_container_args(
    resources: &CaseResources,
    mounts: &Vec<(String, String)>,
    workdir: &str,
    request_dir: &str,
    image: &str,
) -> (r: Result<Vec<String>, MissingVolume>)
    ensures
        match volume_mounts_spec(resources@.volumes, pair_views(mounts@)) {
            Ok(m) => r matches Ok(v) && views_of(v@) == verifier_head(workdir@, request_dir@) + m
                + seq![image@, "/verify/request.json"@],
            Err(a) => r matches Err(e) && e.alias@ == a,
        },
{
    let mut out: Vec<String> = Vec::new();
    push_head(&mut out, "1000:1000", workdir);
    push_arg(&mut out, "--entrypoint");
    push_arg(&mut out, "/usr/local/bin/tfmt-container-verify");
    push_arg(&mut out, "--mount");
    push_concat(&mut out, "type=bind,src=", request_dir, ",dst=/verify,readonly");
    assert(views_of(out@) =~= verifier_head(workdir@, request_dir@));
    match push_volume_mounts(&mut out, resources, mounts) {
        Err(e) => {
            return Err(e);
        },
        Ok(()) => {},
    }
    let ghost with_mounts = views_of(out@);
    push_arg(&mut out, image);
    push_arg(&mut out, "/verify/request.json");
    assert(views_of(out@) =~= with_mounts + seq![image@, "/verify/request.json"@]);
    Ok(out)
}

// ---------------------------------------------------------------------------
// Messages of timed-out commands
// ---------------------------------------------------------------------------
/// What is reported of a command that ran out of time: which command, the
/// limit, and (when it wrote any) its standard error, trimmed.
pub open spec fn timeout_message_spec(
    what: Seq<char>,
    seconds: nat,
    stderr_written: bool,
    stderr: Seq<char>,
) -> Seq<char> {
    what + " timed out after "@ + decimal_spec(seconds) + " seconds"@ + (if stderr_written {
        "\nstderr:\n"@
    } else {
        seq![]
    }) + trim_spec(stderr)
}

/// The decimal digits of `n`.
fn u64_to_decimal(n: u64) -> (r: Vec<char>)
    ensures
        r@ == decimal_spec(n as nat),
    decreases n,
{
    let d = (n % 10) as usize;
    let c = crate::text::char_from_digit(d);
    if n < 10 {
        let mut r = Vec::new();
        r.push(c);
        assert(r@ =~= decimal_spec(n as nat));
        r
    } else {
        let mut r = u64_to_decimal(n / 10);
        r.push(c);
        assert(r@ =~= decimal_spec((n / 10) as nat) + seq![
            crate::text::digit_char((n % 10) as nat),
        ]);
        r
    }
}

/// The message of a command that timed out after `seconds`; `stderr_written`
/// tells whether it wrote to standard error, `stderr` is what it wrote.
pub fn timeout_message(what: &str, seconds: u64, stderr_written: bool, stderr: &str) -> (r: String)
    ensures
        r@ == timeout_message_spec(what@, seconds as nat, stderr_written, stderr@),
{
    let mut v: Vec<char> = Vec::new();
    push_str(&mut v, what);
    push_str(&mut v, " timed out after ");
    let d = u64_to_decimal(seconds);
    push_all(&mut v, &d);
    push_str(&mut v, " seconds");
    if stderr_written {
        push_str(&mut v, "\nstderr:\n");
    }
    let e = chars_of(stderr);
    let t = trim_chars(&e);
    push_all(&mut v, &t);
    string_from_chars(v.as_slice())
}

/// The message of a verifier that timed out after `seconds`.
pub fn verifier_timeout_message(seconds: u64) -> (r: String)
    ensures
        r@ == "verifier timed out after "@ + decimal_spec(seconds as nat) + " seconds"@,
{
    let mut v: Vec<char> = Vec::new();
    push_str(&mut v, "verifier timed out after ");
    let d = u64_to_decimal(seconds);
    push_all(&mut v, &d);
    push_str(&mut v, " seconds");
    string_from_chars(v.as_slice())
}

// ---------------------------------------------------------------------------
// The identifier of a suite run
// ---------------------------------------------------------------------------
pub open spec fn is_ascii_alnum(c: char) -> bool {
    ('a' <= c && c <= 'z') || ('A' <= c && c <= 'Z') || ('0' <= c && c <= '9')
}

pub open spec fn ascii_lower(c: char) -> char {
    if 'A' <= c && c <= 'Z' {
        ((c as u32) + 32) as char
    } else {
        c
    }
}

/// The ASCII letters and digits of `s`, lowered.
pub open spec fn alnum_lowered(s: Seq<char>) -> Seq<char>
    decreases s.len(),
{
    if s.len() == 0 {
        seq![]
    } else {
        alnum_lowered(s.drop_last()) + if is_ascii_alnum(s.last()) {
            seq![ascii_lower(s.last())]
        } else {
            seq![]
        }
    }
}

/// The identifier of a run started at `started_at`: its ASCII letters and
/// digits, lowered, at most 24 of them.
pub open spec fn run_id_spec(started_at: Seq<char>) -> Seq<char> {
    let a = alnum_lowered(started_at);
    if a.len() <= 24 {
        a
    } else {
        a.take(24)
    }
}

fn ascii_lower_exec(c: char) -> (r: char)
    ensures
        r == ascii_lower(c),
{
    if 'A' <= c && c <= 'Z' {
        let u = c as u32 + 32;
        let b = u as u8;
        assert(b as u32 == u);
        let r = b as char;
        assert(r as u32 == u);
        r
    } else {
        c
    }
}

/// The identifier of a run started at `started_at`.
pub fn build_run_id(started_at: &str) -> (r: String)
    ensures
        r@ == run_id_spec(started_at@),
{
    let s = chars_of(started_at);
    let mut out: Vec<char> = Vec::new();
    let mut i: usize = 0;
    while i < s.len()
        invariant
            i <= s@.len(),
            out@ == alnum_lowered(s@.take(i as int)),
        decreases s.len() - i,
    {
        assert(s@.take(i + 1).drop_last() =~= s@.take(i as int));
        let c = s[i];
        if ('a' <= c && c <= 'z') || ('A' <= c && c <= 'Z') || ('0' <= c && c <= '9') {
            out.push(ascii_lower_exec(c));
        }
        assert(out@ =~= alnum_lowered(s@.take(i + 1)));
        i = i + 1;
    }
    assert(s@.take(s@.len() as int) =~= s@);
    let n = if out.len() <= 24 {
        out.len()
    } else {
        24
    };
    let cut = crate::text::slice_chars(&out, 0, n);
    assert(out@.len() <= 24 ==> cut@ =~= out@);
    assert(out@.len() > 24 ==> cut@ =~= out@.take(24));
    string_from_chars(cut.as_slice())
}

// ---------------------------------------------------------------------------
// Steps of a case
// ---------------------------------------------------------------------------
/// Whether the next step of a case runs or is skipped.
#[derive(Debug, Clone, Copy, PartialEq, Eq, Structural)]
pub enum StepDecision {
    Run,
    /// Skipped because an earlier step (or the setup) failed.
    SkipAfterFailure,
}

/// The progress of a case through its steps: whether the setup or a step
/// that ran has failed.
#[derive(Debug, Clone, Copy)]
pub struct CaseProgress {
    failed: bool,
}

impl View for CaseProgress {
    type V = bool;

    closed spec fn view(&self) -> bool {
        self.failed
    }
}

/// The decision for the next step, in a case that has (or has not) failed.
pub open spec fn decision_spec(failed: bool) -> StepDecision {
    if failed {
        StepDecision::SkipAfterFailure
    } else {
        StepDecision::Run
    }
}

/// Whether a case has failed after its setup and the given outcomes of the
/// steps that ran.
pub open spec fn failed_after(setup_passed: bool, outcomes: Seq<bool>) -> bool
    decreases outcomes.len(),
{
    if outcomes.len() == 0 {
        !setup_passed
    } else {
        failed_after(setup_passed, outcomes.drop_last()) || !outcomes.last()
    }
}

impl CaseProgress {
    /// The progress after the setup step.
    pub fn after_setup(setup_passed: bool) -> (r: Self)
        ensures
            r@ == !setup_passed,
    {
        CaseProgress { failed: !setup_passed }
    }

    /// Whether the next step runs: every step after a failure is skipped.
    pub fn next_step(&self) -> (r: StepDecision)
        ensures
            r == decision_spec(self@),
    {
        if self.failed {
            StepDecision::SkipAfterFailure
        } else {
            StepDecision::Run
        }
    }

    /// Records the outcome of a step that ran.
    pub fn record(&mut self, passed: bool)
        ensures
            final(self)@ == (old(self)@ || !passed),
    {
        self.failed = self.failed || !passed;
    }

    /// Whether the setup or a step has failed.
    pub fn failed(&self) -> (r: bool)
        ensures
            r == self@,
    {
        self.failed
    }
}

/// Once the setup or a step has failed, every later step is skipped; and
/// while every step so far has passed after a passing setup, the next one
/// runs.
pub proof fn lemma_failure_skips_the_rest(setup_passed: bool, outcomes: Seq<bool>, k: int)
    requires
        0 <= k <= outcomes.len(),
    ensures
        failed_after(setup_passed, outcomes.take(k)) ==> decision_spec(
            failed_after(setup_passed, outcomes),
        ) == StepDecision::SkipAfterFailure,
        decision_spec(failed_after(setup_passed, outcomes)) == StepDecision::Run <==> (setup_passed
            && forall|i: int| 0 <= i < outcomes.len() ==> #[trigger] outcomes[i]),
    decreases outcomes.len(),
{
    if outcomes.len() > 0 {
        let rest = outcomes.drop_last();
        if k == outcomes.len() {
            assert(outcomes.take(k) =~= outcomes);
            lemma_failure_skips_the_rest(setup_passed, rest, k - 1);
        } else {
            assert(outcomes.take(k) =~= rest.take(k));
            lemma_failure_skips_the_rest(setup_passed, rest, k);
        }
        if setup_passed && forall|i: int| 0 <= i < rest.len() ==> #[trigger] rest[i] {
            if outcomes.last() {
                assert forall|i: int| 0 <= i < outcomes.len() implies #[trigger] outcomes[i] by {
                    if i < rest.len() {
                        assert(rest[i] == outcomes[i]);
                    }
                }
            }
        }
        if setup_passed && forall|i: int| 0 <= i < outcomes.len() ==> #[trigger] outcomes[i] {
            assert forall|i: int| 0 <= i < rest.len() implies #[trigger] rest[i] by {
                assert(outcomes[i] == rest[i]);
            }
            assert(outcomes[outcomes.len() - 1]);
        }
    } else {
        assert(outcomes.take(k) =~= outcomes);
    }
}

/// What a step checks after its command: its named file expectations
/// (with its history expectation, if any), or only its history
/// expectation (with no file expectations, named by the empty string), or
/// nothing.
pub open spec fn after_checks_spec(expectations: Option<Seq<char>>, history: Option<Seq<char>>) -> Option<
    (Seq<char>, Option<Seq<char>>),
> {
    match expectations {
        Some(e) => Some((e, history)),
        None => match history {
            Some(h) => Some((seq![], Some(h))),
            None => None,
        },
    }
}

pub open spec fn opt_view(o: Option<String>) -> Option<Seq<char>> {
    match o {
        Some(s) => Some(s@),
        None => None,
    }
}

/// The checks a step makes after its command: the name of its file
/// expectations and of its history expectation.
pub fn after_checks(step: &CaseStep) -> (r: Option<(String, Option<String>)>)
    ensures
        match after_checks_spec(opt_view(step.expectations), opt_view(step.history)) {
            Some((e, h)) => r matches Some(p) && p.0@ == e && opt_view(p.1) == h,
            None => r is None,
        },
{
    match &step.expectations {
        Some(e) => {
            let h = match &step.history {
                Some(h) => Some(h.clone()),
                None => None,
            };
            Some((e.clone(), h))
        },
        None => match &step.history {
            Some(h) => Some((String::new(), Some(h.clone()))),
            None => None,
        },
    }
}

// ---------------------------------------------------------------------------
// The command-line suite
// ---------------------------------------------------------------------------
/// The pieces of `s` between whitespace characters (empty ones included).
pub open spec fn ws_pieces(s: Seq<char>) -> Seq<Seq<char>>
    decreases s.len(),
{
    if s.len() == 0 {
        seq![seq![]]
    } else {
        let p = ws_pieces(s.drop_last());
        if is_whitespace_char(s.last()) {
            p.push(seq![])
        } else {
            p.update(p.len() - 1, p.last().push(s.last()))
        }
    }
}

proof fn lemma_ws_pieces_nonempty(s: Seq<char>)
    ensures
        ws_pieces(s).len() >= 1,
    decreases s.len(),
{
    if s.len() > 0 {
        lemma_ws_pieces_nonempty(s.drop_last());
    }
}

/// The non-empty pieces.
pub open spec fn non_empty(p: Seq<Seq<char>>) -> Seq<Seq<char>>
    decreases p.len(),
{
    if p.len() == 0 {
        seq![]
    } else {
        non_empty(p.drop_last()) + if p.last().len() > 0 {
            seq![p.last()]
        } else {
            seq![]
        }
    }
}

/// The words of `s`, as std's `str::split_whitespace` yields them.
pub open spec fn words_spec(s: Seq<char>) -> Seq<Seq<char>> {
    non_empty(ws_pieces(s))
}

/// The words of `s`.
pub fn split_words(s: &str) -> (r: Vec<String>)
    ensures
        views_of(r@) == words_spec(s@),
{
    let chars = chars_of(s);
    let mut words: Vec<String> = Vec::new();
    let mut cur: Vec<char> = Vec::new();
    let mut i: usize = 0;
    assert(chars@.take(0) =~= Seq::<char>::empty());
    assert(ws_pieces(Seq::<char>::empty()).drop_last() =~= Seq::<Seq<char>>::empty());
    while i < chars.len()
        invariant
            i <= chars@.len(),
            chars@ == s@,
            ws_pieces(chars@.take(i as int)).len() >= 1,
            cur@ == ws_pieces(chars@.take(i as int)).last(),
            views_of(words@) == non_empty(ws_pieces(chars@.take(i as int)).drop_last()),
        decreases chars.len() - i,
    {
        let ghost p = ws_pieces(chars@.take(i as int));
        assert(chars@.take(i + 1).drop_last() =~= chars@.take(i as int));
        assert(chars@.take(i + 1).last() == chars@[i as int]);
        let c = chars[i];
        if crate::text::is_whitespace(c) {
            let ghost np = p.push(seq![]);
            assert(np.drop_last() =~= p);
            if cur.len() > 0 {
                let ghost before = views_of(words@);
                words.push(string_from_chars(cur.as_slice()));
                assert(views_of(words@) =~= before.push(cur@));
            }
            assert(non_empty(p) == non_empty(p.drop_last()) + if p.last().len() > 0 {
                seq![p.last()]
            } else {
                seq![]
            });
            assert(views_of(words@) =~= non_empty(p));
            cur = Vec::new();
            assert(cur@ =~= np.last());
        } else {
            let ghost np = p.update(p.len() - 1, p.last().push(c));
            assert(np.drop_last() =~= p.drop_last());
            cur.push(c);
            assert(cur@ =~= np.last());
        }
        i = i + 1;
    }
    let ghost p = ws_pieces(chars@.take(i as int));
    if cur.len() > 0 {
        let ghost before = views_of(words@);
        words.push(string_from_chars(cur.as_slice()));
        assert(views_of(words@) =~= before.push(cur@));
    }
    assert(views_of(words@) =~= non_empty(p));
    assert(chars@.take(chars@.len() as int) =~= chars@);
    words
}

/// The arguments of the application in a command-line case: the case's
/// configuration folder, the fixed run identifier `run_id`, then the
/// words of the step's command.
pub fn cli_case_args(config_dir: &str, command: &str) -> (r: Vec<String>)
    ensures
        views_of(r@) == seq!["--config-directory"@, config_dir@, "--run-id"@, "run_id"@]
            + words_spec(command@),
{
    let mut out: Vec<String> = Vec::new();
    push_arg(&mut out, "--config-directory");
    push_arg(&mut out, config_dir);
    push_arg(&mut out, "--run-id");
    push_arg(&mut out, "run_id");
    let ghost head = views_of(out@);
    assert(head =~= seq!["--config-directory"@, config_dir@, "--run-id"@, "run_id"@]);
    let words = split_words(command);
    let ghost wv = views_of(words@);
    let mut i: usize = 0;
    while i < words.len()
        invariant
            i <= words@.len(),
            wv == views_of(words@),
            views_of(out@) == head + wv.take(i as int),
        decreases words.len() - i,
    {
        let ghost b = views_of(out@);
        out.push(words[i].clone());
        assert(views_of(out@) =~= b.push(wv[i as int]));
        assert(wv.take(i + 1) =~= wv.take(i as int).push(wv[i as int]));
        i = i + 1;
    }
    assert(wv.take(words@.len() as int) =~= wv);
    out
}

/// Whether an environment variable is recorded in a suite's report.
pub fn is_reported_variable(name: &str) -> (r: bool)
    ensures
        r == (crate::text::starts_with_spec(name@, "TFMT_CONTAINER_"@) || name@
            == "RUST_TEST_THREADS"@ || name@ == "RUST_TEST_NOCAPTURE"@),
{
    let n = chars_of(name);
    let prefix = chars_of("TFMT_CONTAINER_");
    let threads = chars_of("RUST_TEST_THREADS");
    let nocapture = chars_of("RUST_TEST_NOCAPTURE");
    crate::text::starts_with(&n, &prefix) || chars_eq(&n, &threads) || chars_eq(&n, &nocapture)
}

/// Whether a file in the cases folder is a case file.
pub fn is_case_file_name(file_name: &str) -> (r: bool)
    ensures
        r == crate::text::ends_with_spec(file_name@, ".case.json"@),
{
    let n = chars_of(file_name);
    let suffix = chars_of(".case.json");
    crate::text::ends_with(&n, &suffix)
}

// ---------------------------------------------------------------------------
// The container runtime
// ---------------------------------------------------------------------------
/// Why no runtime can be used.
#[derive(Debug, PartialEq, Eq)]
pub enum RuntimeError {
    /// The runtime named in the environment does not run.
    MissingNamedRuntime(String),
    /// A runtime is required and neither candidate runs.
    NoneFound,
}

/// The runtime to use: the one named (when it runs), else the first
/// candidate (`docker`, then `podman`) that runs; `probes[i]` tells
/// whether candidate `i` runs (probing may stop at the first that does).
pub open spec fn runtime_choice(
    named: Option<Seq<char>>,
    named_runs: bool,
    probes: Seq<bool>,
    required: bool,
) -> Result<Option<Seq<char>>, Option<Seq<char>>> {
    match named {
        Some(n) => if named_runs {
            Ok(Some(n))
        } else {
            Err(Some(n))
        },
        None => if probes.len() > 0 && probes[0] {
            Ok(Some("docker"@))
        } else if probes.len() > 1 && probes[1] {
            Ok(Some("podman"@))
        } else if required {
            Err(None)
        } else {
            Ok(None)
        },
    }
}

/// Picks the container runtime (see [`runtime_choice`]).
pub fn detect_runtime(
    named: Option<&str>,
    named_runs: bool,
    probes: &[bool],
    required: bool,
) -> (r: Result<Option<String>, RuntimeError>)
    ensures
        match runtime_choice(
            match named {
                Some(n) => Some(n@),
                None => None,
            },
            named_runs,
            probes@,
            required,
        ) {
            Ok(Some(c)) => r matches Ok(Some(s)) && s@ == c,
            Ok(None) => r matches Ok(None),
            Err(Some(n)) => r matches Err(RuntimeError::MissingNamedRuntime(s)) && s@ == n,
            Err(None) => r matches Err(RuntimeError::NoneFound),
        },
{
    match named {
        Some(n) => if named_runs {
            Ok(Some(n.to_owned()))
        } else {
            Err(RuntimeError::MissingNamedRuntime(n.to_owned()))
        },
        None => if probes.len() > 0 && probes[0] {
            Ok(Some("docker".to_owned()))
        } else if probes.len() > 1 && probes[1] {
            Ok(Some("podman".to_owned()))
        } else if required {
            Err(RuntimeError::NoneFound)
        } else {
            Ok(None)
        },
    }
}

impl RuntimeError {
    /// The message, given the named runtime already quoted as std's `{:?}`
    /// prints it.
    pub fn message(&self, quoted_name: &str) -> (r: String)
        ensures
            self is MissingNamedRuntime ==> r@ == "TFMT_CONTAINER_RUNTIME names missing runtime "@
                + quoted_name@,
            self is NoneFound ==> r@ == "no container runtime found; tried docker and podman"@,
    {
        match self {
            RuntimeError::MissingNamedRuntime(_) => {
                let mut v: Vec<char> = Vec::new();
                push_str(&mut v, "TFMT_CONTAINER_RUNTIME names missing runtime ");
                push_str(&mut v, quoted_name);
                string_from_chars(v.as_slice())
            },
            RuntimeError::NoneFound => "no container runtime found; tried docker and podman".to_owned(),
        }
    }
}

/// What a runtime says of its version: its trimmed output and error
/// output, the non-empty ones joined by a line break; `None` when the
/// command failed or said nothing.
pub open spec fn version_text_spec(success: bool, stdout: Seq<char>, stderr: Seq<char>) -> Option<
    Seq<char>,
> {
    let o = trim_spec(stdout);
    let e = trim_spec(stderr);
    let text = if o.len() > 0 && e.len() > 0 {
        o + "\n"@ + e
    } else if o.len() > 0 {
        o
    } else {
        e
    };
    if success && text.len() > 0 {
        Some(text)
    } else {
        None
    }
}

pub fn version_text(success: bool, stdout: &str, stderr: &str) -> (r: Option<String>)
    ensures
        match version_text_spec(success, stdout@, stderr@) {
            Some(t) => r matches Some(s) && s@ == t,
            None => r is None,
        },
{
    let oc = chars_of(stdout);
    let o = trim_chars(&oc);
    let ec = chars_of(stderr);
    let e = trim_chars(&ec);
    let mut v: Vec<char> = Vec::new();
    push_all(&mut v, &o);
    if o.len() > 0 && e.len() > 0 {
        push_str(&mut v, "\n");
    }
    push_all(&mut v, &e);
    if success && v.len() > 0 {
        Some(string_from_chars(v.as_slice()))
    } else {
        None
    }
}

/// The message of a failed runtime command: the command line, then its
/// trimmed output and error output when not empty.
pub open spec fn command_failure_spec(
    command: Seq<char>,
    args: Seq<Seq<char>>,
    stdout: Seq<char>,
    stderr: Seq<char>,
) -> Seq<char> {
    let o = trim_spec(stdout);
    let e = trim_spec(stderr);
    "runtime command failed: "@ + command + " "@ + crate::text::join_spec(args, " "@) + (if o.len()
        > 0 {
        "\nstdout:\n"@ + o
    } else {
        seq![]
    }) + (if e.len() > 0 {
        "\nstderr:\n"@ + e
    } else {
        seq![]
    })
}

pub fn command_failure_message(command: &str, args: &Vec<String>, stdout: &str, stderr: &str) -> (r:
    String)
    ensures
        r@ == command_failure_spec(command@, views_of(args@), stdout@, stderr@),
{
    let mut v: Vec<char> = Vec::new();
    push_str(&mut v, "runtime command failed: ");
    push_str(&mut v, command);
    push_str(&mut v, " ");
    let sp = chars_of(" ");
    let joined = crate::text::join_strings(args, &sp);
    push_all(&mut v, &joined);
    let oc = chars_of(stdout);
    let o = trim_chars(&oc);
    if o.len() > 0 {
        push_str(&mut v, "\nstdout:\n");
        push_all(&mut v, &o);
    }
    let ec = chars_of(stderr);
    let e = trim_chars(&ec);
    if e.len() > 0 {
        push_str(&mut v, "\nstderr:\n");
        push_all(&mut v, &e);
    }
    string_from_chars(v.as_slice())
}

// ---------------------------------------------------------------------------
// The suite's image
// ---------------------------------------------------------------------------
/// What the runtime answered to the last request of [`ensure_image`].
#[derive(Debug)]
pub enum ImageEvent {
    /// Nothing yet.
    Start,
    /// Whether the image is present, or why inspecting it failed.
    Inspected(Result<bool, String>),
    /// The build's outcome.
    Built(Result<(), ImageBuildFailure>),
    /// The image's identifier (how the image came to be is carried along),
    /// or why reading it failed.
    IdRead(ImageBuild, Result<Option<String>, String>),
}

/// What [`ensure_image`] asks of the runtime next, or how it ends.
#[derive(Debug)]
pub enum ImageAction {
    Inspect,
    Build,
    /// Read the identifier of the image, which came to be this way.
    ReadId(ImageBuild),
    Ready(ImageInfo),
    Failed(ImageBuildFailure),
}

/// The failure to inspect `image`.
pub open spec fn inspect_failure_reason(image: Seq<char>, error: Seq<char>) -> Seq<char> {
    "failed to inspect container image "@ + image + ": "@ + error
}

/// The failure to read the identifier of `image`.
pub open spec fn id_failure_reason(image: Seq<char>, error: Seq<char>) -> Seq<char> {
    "failed to inspect image id for "@ + image + ": "@ + error
}

fn reason_failure(a: &str, b: &str, c: &str, d: &str) -> (r: ImageBuildFailure)
    ensures
        r.reason@ == a@ + b@ + c@ + d@,
        r.stdout is None,
        r.stderr is None,
{
    let mut v: Vec<char> = Vec::new();
    push_str(&mut v, a);
    push_str(&mut v, b);
    push_str(&mut v, c);
    push_str(&mut v, d);
    ImageBuildFailure::new(string_from_chars(v.as_slice()), None, None)
}

/// One step of making sure the suite's image exists: skipped when asked
/// (its identifier is still read), looked up unless rebuilding, built
/// when absent or when rebuilding, then identified.
pub fn ensure_image(config: &ImageConfig, event: ImageEvent) -> (r: ImageAction)
    ensures
        match event {
            ImageEvent::Start => if config.skip_build {
                r matches ImageAction::ReadId(ImageBuild::Skipped)
            } else if config.rebuild {
                r matches ImageAction::Build
            } else {
                r matches ImageAction::Inspect
            },
            ImageEvent::Inspected(Err(e)) => r matches ImageAction::Failed(f) && f.reason@
                == inspect_failure_reason(config.image@, e@) && f.stdout is None && f.stderr is None,
            ImageEvent::Inspected(Ok(present)) => match image_build_choice(
                config.skip_build,
                config.rebuild,
                present,
            ) {
                Some(b) => r == ImageAction::ReadId(b),
                None => r matches ImageAction::Build,
            },
            ImageEvent::Built(Ok(())) => r matches ImageAction::ReadId(ImageBuild::Built),
            ImageEvent::Built(Err(f)) => r == ImageAction::Failed(f),
            ImageEvent::IdRead(b, Ok(id)) => r matches ImageAction::Ready(info) && info.build == b
                && info.id == id && info.source.build_context@ == "."@ && info.source.containerfile@
                == "tests/container/Containerfile"@ && info.source.builder_base@
                == "rust:1.89-bookworm"@ && info.source.runtime_base@ == "debian:bookworm-slim"@,
            ImageEvent::IdRead(_, Err(e)) => r matches ImageAction::Failed(f) && f.reason@
                == id_failure_reason(config.image@, e@) && f.stdout is None && f.stderr is None,
        },
{
    match event {
        ImageEvent::Start => if config.skip_build {
            ImageAction::ReadId(ImageBuild::Skipped)
        } else if config.rebuild {
            ImageAction::Build
        } else {
            ImageAction::Inspect
        },
        ImageEvent::Inspected(Err(e)) => ImageAction::Failed(
            reason_failure(
                "failed to inspect container image ",
                config.image.as_str(),
                ": ",
                e.as_str(),
            ),
        ),
        ImageEvent::Inspected(Ok(present)) => match image_build_decision(config, present) {
            Some(b) => ImageAction::ReadId(b),
            None => ImageAction::Build,
        },
        ImageEvent::Built(Ok(())) => ImageAction::ReadId(ImageBuild::Built),
        ImageEvent::Built(Err(f)) => ImageAction::Failed(f),
        ImageEvent::IdRead(b, Ok(id)) => ImageAction::Ready(
            ImageInfo { build: b, id, source: ImageSource::default() },
        ),
        ImageEvent::IdRead(_, Err(e)) => ImageAction::Failed(
            reason_failure("failed to inspect image id for ", config.image.as_str(), ": ", e.as_str()),
        ),
    }
}

/// Why a build failed: it could not be run at all.
pub fn build_run_failure(image: &str, command: &str, error: &str) -> (r: ImageBuildFailure)
    ensures
        r.reason@ == "failed to run "@ + command@ + " build for "@ + image@ + ": "@ + error@,
        r.stdout is None,
        r.stderr is None,
{
    let mut v: Vec<char> = Vec::new();
    push_str(&mut v, "failed to run ");
    push_str(&mut v, command);
    push_str(&mut v, " build for ");
    push_str(&mut v, image);
    push_str(&mut v, ": ");
    push_str(&mut v, error);
    ImageBuildFailure::new(string_from_chars(v.as_slice()), None, None)
}

/// `text` trimmed, when that leaves anything.
pub open spec fn non_blank(text: Seq<char>) -> Option<Seq<char>> {
    if trim_spec(text).len() > 0 {
        Some(trim_spec(text))
    } else {
        None
    }
}

fn non_blank_exec(text: &str) -> (r: Option<String>)
    ensures
        opt_view(r) == non_blank(text@),
{
    let c = chars_of(text);
    let t = trim_chars(&c);
    if t.len() > 0 {
        Some(string_from_chars(t.as_slice()))
    } else {
        None
    }
}

/// Why a build failed: the build command failed, with what it wrote.
pub fn build_output_failure(image: &str, command: &str, stdout: &str, stderr: &str) -> (r:
    ImageBuildFailure)
    ensures
        r.reason@ == "failed to build container image "@ + image@ + " with "@ + command@,
        opt_view(r.stdout) == non_blank(stdout@),
        opt_view(r.stderr) == non_blank(stderr@),
{
    let mut v: Vec<char> = Vec::new();
    push_str(&mut v, "failed to build container image ");
    push_str(&mut v, image);
    push_str(&mut v, " with ");
    push_str(&mut v, command);
    ImageBuildFailure::new(
        string_from_chars(v.as_slice()),
        non_blank_exec(stdout),
        non_blank_exec(stderr),
    )
}

/// The image's identifier from `image inspect`: its trimmed output, when
/// the command succeeded and said anything.
pub fn image_id_from_output(success: bool, stdout: &str) -> (r: Option<String>)
    ensures
        success ==> opt_view(r) == non_blank(stdout@),
        !success ==> r is None,
{
    if !success {
        return None;
    }
    non_blank_exec(stdout)
}

/// How a suite run ends.
#[derive(Debug, Clone, Copy, PartialEq, Eq, Structural)]
pub enum SuiteExit {
    Success,
    Failure,
}

/// A suite succeeds exactly when every case passed (`cases_passed[i]`
/// tells whether case `i` did); a suite of no cases succeeds.
pub fn suite_exit(cases_passed: &[bool]) -> (r: SuiteExit)
    ensures
        r == SuiteExit::Success <==> forall|i: int|
            0 <= i < cases_passed@.len() ==> #[trigger] cases_passed@[i],
{
    let mut i: usize = 0;
    while i < cases_passed.len()
        invariant
            i <= cases_passed@.len(),
            forall|j: int| 0 <= j < i ==> #[trigger] cases_passed@[j],
        decreases cases_passed.len() - i,
    {
        if !cases_passed[i] {
            return SuiteExit::Failure;
        }
        i = i + 1;
    }
    SuiteExit::Success
}

} // verus!
