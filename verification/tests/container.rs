use tfmttools::container::{build_setup_script, Precondition, SetupOperation, SetupScenario};
use tfmttools::mounts::Mounts;
use tfmttools::launch::{suite_exit, SuiteExit};
use tfmttools::container::{
    case_id_from_path, command_with_config_directory, join_container_path, matches_filter,
    matches_filters, parse_count, parse_flag, random_suffix_text, runtime_argv,
    sanitize_volume_component, shell_quote, value_or_default, volume_mount_arg, CaseIdError,
    CaseResources, CaseStep, ImageBuild, ImageConfig, SettingError,
};
use tfmttools::launch::{
    after_checks, app_container_args, build_run_id, cli_case_args, is_case_file_name,
    is_reported_variable, split_words, build_output_failure, build_run_failure,
    command_failure_message, detect_runtime, ensure_image, image_id_from_output, version_text,
    ImageAction, ImageEvent, RuntimeError, setup_container_args, timeout_message,
    verifier_container_args, verifier_timeout_message, CaseProgress, MissingVolume, StepDecision,
};

#[test]
fn strips_case_suffix_for_case_id() {
    let id = case_id_from_path("cases/cross-device.case.json").expect("case id should parse");

    assert_eq!(id, "cross-device");
}

#[test]
fn rejects_non_case_json_files() {
    let error = case_id_from_path("cases/not-a-case.json").expect_err("non case files should fail");

    assert!(error.message().contains("container case file must end with .case.json"));
}

#[test]
fn case_path_without_file_name_is_rejected() {
    let error = case_id_from_path("cases/..").expect_err("no file name");
    assert_eq!(error, CaseIdError::MissingFileName);
    assert_eq!(error.message(), "container case path must include a file name");
}

#[test]
fn sanitizes_volume_name_components() {
    assert_eq!(sanitize_volume_component("Cross_Device-Case", 32), "cross-device-case");
}

#[test]
fn volume_components_are_trimmed_and_cut() {
    assert_eq!(sanitize_volume_component("--Ab!C--", 32), "ab-c");
    assert_eq!(sanitize_volume_component("abcdefgh", 3), "abc");
    assert_eq!(sanitize_volume_component("ab-cd", 3), "ab-");
    assert_eq!(sanitize_volume_component("ÄÖ", 8), "");
}

#[test]
fn exact_filters_match_only_full_case_id() {
    assert!(matches_filter("cross-device-nemo", "cross-device-nemo", true));
    assert!(!matches_filter("cross-device-nemo", "cross-device", true));
}

#[test]
fn non_exact_filters_match_substrings() {
    assert!(matches_filter("cross-device-nemo", "device", false));
    assert!(!matches_filter("cross-device-nemo", "redo-only", false));
}

#[test]
fn filters_and_skips_combine() {
    let skip = vec!["nemo".to_string()];
    assert!(!matches_filters("cross-device-nemo", Some("device"), &skip, false));
    assert!(matches_filters("cross-device", Some("device"), &skip, false));
    assert!(matches_filters("anything", None, &[], false));
    assert!(!matches_filters("anything", Some("other"), &[], false));
}

#[test]
fn shell_quote_escapes_single_quotes() {
    assert_eq!(shell_quote("plain"), "'plain'");
    assert_eq!(shell_quote("it's"), "'it'\"'\"'s'");
}

#[test]
fn container_paths_join_below_base() {
    assert_eq!(join_container_path("/work", "").unwrap(), "/work");
    assert_eq!(join_container_path("/work", "music/a").unwrap(), "/work/music/a");
    let err = join_container_path("/work", "/etc").unwrap_err();
    assert_eq!(err.path, "/etc");
}

#[test]
fn mount_argument_and_argv() {
    assert_eq!(volume_mount_arg("vol", "/work/input"), "type=volume,src=vol,dst=/work/input");
    let argv = runtime_argv("podman", &["run".to_string(), "--rm".to_string()]);
    assert_eq!(argv, vec!["podman", "run", "--rm"]);
}

#[test]
fn config_directory_is_added_once() {
    let cmd = vec!["rename".to_string(), "simple".to_string()];
    assert_eq!(
        command_with_config_directory(true, &cmd),
        vec!["--config-directory", "/work/config", "rename", "simple"]
    );
    assert_eq!(command_with_config_directory(false, &cmd), cmd);
    let given = vec!["-c".to_string(), "/x".to_string(), "rename".to_string()];
    assert_eq!(command_with_config_directory(true, &given), given);
}

#[test]
fn random_suffix_is_eight_hex_digits() {
    assert_eq!(random_suffix_text(0), "00000000");
    assert_eq!(random_suffix_text(0xdeadbeef), "deadbeef");
    assert_eq!(random_suffix_text(255), "000000ff");
}

#[test]
fn case_resources_name_volumes() {
    let mut r = CaseResources::new("Cross_Device", "Run 1", "0000abcd".to_string());
    let name = r.push("Input");
    assert_eq!(name, "tfmttools-run-1-cross-device-input-0000abcd");
    assert_eq!(r.volume_name("Input"), Some(name.clone()));
    assert_eq!(r.volume_name("other"), None);
    assert_eq!(r.volume_names(), vec![name.clone()]);
    assert_eq!(r.cleanup_commands("docker"), vec![format!("docker volume rm -f {name}")]);
    r.push_host_dir("/tmp/host".to_string());
    assert_eq!(r.host_dirs(), &["/tmp/host".to_string()]);
}

#[test]
fn flags_and_counts_parse() {
    assert_eq!(parse_flag(None), Ok(false));
    assert_eq!(parse_flag(Some("")), Ok(false));
    assert_eq!(parse_flag(Some("0")), Ok(false));
    assert_eq!(parse_flag(Some("1")), Ok(true));
    assert_eq!(parse_flag(Some("yes")), Err(SettingError::NotAFlag("yes".to_string())));

    assert_eq!(parse_count(None, 4), Ok(4));
    assert_eq!(parse_count(Some(""), 4), Ok(4));
    assert_eq!(parse_count(Some("12"), 4), Ok(12));
    assert_eq!(parse_count(Some("x"), 4), Err(SettingError::NotACount("x".to_string())));
    assert_eq!(parse_count(Some("0"), 4), Err(SettingError::ZeroCount));

    assert_eq!(value_or_default(None, "d"), "d");
    assert_eq!(value_or_default(Some(""), "d"), "d");
    assert_eq!(value_or_default(Some("v"), "d"), "v");
}

fn resources_with(aliases: &[&str]) -> CaseResources {
    let mut r = CaseResources::new("case", "run", "00000001".to_string());
    for a in aliases {
        r.push(a);
    }
    r
}

fn mounts(list: &[(&str, &str)]) -> Vec<(String, String)> {
    list.iter().map(|(a, p)| (a.to_string(), p.to_string())).collect()
}

#[test]
fn setup_container_runs_the_script_as_root() {
    let r = resources_with(&["input"]);
    let args = setup_container_args(&r, &mounts(&[("input", "/work/input")]), "/work", "/fx", "img", "echo hi")
        .unwrap();
    assert_eq!(
        args,
        vec![
            "run", "--rm", "--user", "0:0", "--workdir", "/work", "--entrypoint", "/bin/sh",
            "--mount", "type=bind,src=/fx,dst=/fixtures,readonly", "--mount",
            "type=volume,src=tfmttools-run-case-input-00000001,dst=/work/input", "img", "-lc",
            "echo hi",
        ]
    );
}

#[test]
fn app_container_adds_the_config_directory() {
    let r = resources_with(&["config", "input"]);
    let m = mounts(&[("config", "/work/config"), ("input", "/work/input")]);
    let args = app_container_args(&r, &m, "/work", "img", &["rename".to_string()]).unwrap();
    assert_eq!(
        args,
        vec![
            "run", "--rm", "--user", "1000:1000", "--workdir", "/work", "--mount",
            "type=volume,src=tfmttools-run-case-config-00000001,dst=/work/config", "--mount",
            "type=volume,src=tfmttools-run-case-input-00000001,dst=/work/input", "img",
            "--config-directory", "/work/config", "rename",
        ]
    );
}

#[test]
fn verifier_container_reads_the_request() {
    let r = resources_with(&["input"]);
    let args =
        verifier_container_args(&r, &mounts(&[("input", "/w/i")]), "/w", "/tmp/req", "img").unwrap();
    assert_eq!(args[6], "--entrypoint");
    assert_eq!(args[7], "/usr/local/bin/tfmt-container-verify");
    assert_eq!(args[9], "type=bind,src=/tmp/req,dst=/verify,readonly");
    assert_eq!(args.last().unwrap(), "/verify/request.json");
    assert_eq!(args.len(), 14);
}

#[test]
fn a_mount_without_volume_is_an_error() {
    let r = resources_with(&["input"]);
    let m = mounts(&[("input", "/w/i"), ("output", "/w/o"), ("extra", "/w/e")]);
    let err = app_container_args(&r, &m, "/w", "img", &[]).unwrap_err();
    assert_eq!(err, MissingVolume { alias: "output".to_string() });
}

#[test]
fn timeouts_are_reported_with_stderr() {
    assert_eq!(
        timeout_message("container command", 30, true, "  boom \n"),
        "container command timed out after 30 seconds\nstderr:\nboom"
    );
    assert_eq!(
        timeout_message("container setup", 5, false, ""),
        "container setup timed out after 5 seconds"
    );
    assert_eq!(verifier_timeout_message(120), "verifier timed out after 120 seconds");
}

#[test]
fn run_ids_keep_lowered_letters_and_digits() {
    assert_eq!(build_run_id("2024-05-06T07:08:09Z"), "20240506t070809z");
    assert_eq!(build_run_id("ABCDEFGHIJKLMNOPQRSTUVWXYZ"), "abcdefghijklmnopqrstuvwx");
    assert_eq!(build_run_id("--"), "");
}

#[test]
fn steps_after_a_failure_are_skipped() {
    let mut p = CaseProgress::after_setup(true);
    assert_eq!(p.next_step(), StepDecision::Run);
    p.record(true);
    assert_eq!(p.next_step(), StepDecision::Run);
    p.record(false);
    assert!(p.failed());
    assert_eq!(p.next_step(), StepDecision::SkipAfterFailure);
    let p = CaseProgress::after_setup(false);
    assert_eq!(p.next_step(), StepDecision::SkipAfterFailure);
}

#[test]
fn steps_check_expectations_or_history_after_their_command() {
    let step = |e: Option<&str>, h: Option<&str>| CaseStep {
        name: "s".to_string(),
        command: None,
        exit_code: 0,
        expectations: e.map(str::to_string),
        before: None,
        history: h.map(str::to_string),
    };
    assert_eq!(after_checks(&step(Some("e"), Some("h"))), Some(("e".to_string(), Some("h".to_string()))));
    assert_eq!(after_checks(&step(Some("e"), None)), Some(("e".to_string(), None)));
    assert_eq!(after_checks(&step(None, Some("h"))), Some((String::new(), Some("h".to_string()))));
    assert_eq!(after_checks(&step(None, None)), None);
}

#[test]
fn words_split_like_std() {
    assert_eq!(split_words("  rename  simple\tx\n"), vec!["rename", "simple", "x"]);
    assert!(split_words("   ").is_empty());
    assert_eq!(split_words("a\u{3000}b"), vec!["a", "b"]);
    let text = " undo -y  2 ";
    assert_eq!(split_words(text), text.split_whitespace().collect::<Vec<_>>());
}

#[test]
fn cli_cases_run_with_their_configuration() {
    assert_eq!(
        cli_case_args("/cfg", "rename simple --dry-run"),
        vec!["--config-directory", "/cfg", "--run-id", "run_id", "rename", "simple", "--dry-run"]
    );
}

#[test]
fn reported_variables_and_case_files() {
    assert!(is_reported_variable("TFMT_CONTAINER_REQUIRED"));
    assert!(is_reported_variable("RUST_TEST_THREADS"));
    assert!(!is_reported_variable("PATH"));
    assert!(is_case_file_name("a.case.json"));
    assert!(!is_case_file_name("a.json"));
}

fn config(skip_build: bool, rebuild: bool) -> ImageConfig {
    ImageConfig { image: "img".to_string(), skip_build, rebuild }
}

#[test]
fn the_image_is_looked_up_built_or_skipped() {
    assert!(matches!(ensure_image(&config(true, true), ImageEvent::Start), ImageAction::ReadId(ImageBuild::Skipped)));
    assert!(matches!(ensure_image(&config(false, true), ImageEvent::Start), ImageAction::Build));
    assert!(matches!(ensure_image(&config(false, false), ImageEvent::Start), ImageAction::Inspect));
    assert!(matches!(
        ensure_image(&config(false, false), ImageEvent::Inspected(Ok(true))),
        ImageAction::ReadId(ImageBuild::AlreadyPresent)
    ));
    assert!(matches!(ensure_image(&config(false, false), ImageEvent::Inspected(Ok(false))), ImageAction::Build));
    assert!(matches!(
        ensure_image(&config(false, false), ImageEvent::Built(Ok(()))),
        ImageAction::ReadId(ImageBuild::Built)
    ));
    match ensure_image(&config(false, false), ImageEvent::Inspected(Err("boom".to_string()))) {
        ImageAction::Failed(f) => assert_eq!(f.reason, "failed to inspect container image img: boom"),
        _ => panic!("expected a failure"),
    }
    match ensure_image(&config(false, false), ImageEvent::IdRead(ImageBuild::Built, Ok(Some("sha".to_string())))) {
        ImageAction::Ready(info) => {
            assert_eq!(info.build, ImageBuild::Built);
            assert_eq!(info.id, Some("sha".to_string()));
            assert_eq!(info.source.containerfile, "tests/container/Containerfile");
        },
        _ => panic!("expected the image"),
    }
    match ensure_image(&config(false, false), ImageEvent::IdRead(ImageBuild::Built, Err("x".to_string()))) {
        ImageAction::Failed(f) => assert_eq!(f.reason, "failed to inspect image id for img: x"),
        _ => panic!("expected a failure"),
    }
}

#[test]
fn build_failures_keep_what_the_build_wrote() {
    let f = build_output_failure("img", "docker", "  out \n", "   ");
    assert_eq!(f.reason, "failed to build container image img with docker");
    assert_eq!(f.stdout, Some("out".to_string()));
    assert_eq!(f.stderr, None);
    let f = build_run_failure("img", "podman", "not found");
    assert_eq!(f.reason, "failed to run podman build for img: not found");
    assert_eq!(image_id_from_output(true, " sha256:1 \n"), Some("sha256:1".to_string()));
    assert_eq!(image_id_from_output(true, "  "), None);
    assert_eq!(image_id_from_output(false, "sha"), None);
}

#[test]
fn runtimes_are_detected_in_order() {
    assert_eq!(detect_runtime(Some("nerdctl"), true, &[], true), Ok(Some("nerdctl".to_string())));
    assert_eq!(
        detect_runtime(Some("nerdctl"), false, &[true], true),
        Err(RuntimeError::MissingNamedRuntime("nerdctl".to_string()))
    );
    assert_eq!(detect_runtime(None, false, &[true], true), Ok(Some("docker".to_string())));
    assert_eq!(detect_runtime(None, false, &[false, true], true), Ok(Some("podman".to_string())));
    assert_eq!(detect_runtime(None, false, &[false, false], true), Err(RuntimeError::NoneFound));
    assert_eq!(detect_runtime(None, false, &[false, false], false), Ok(None));
    assert_eq!(
        RuntimeError::NoneFound.message(""),
        "no container runtime found; tried docker and podman"
    );
    assert_eq!(
        RuntimeError::MissingNamedRuntime("x".to_string()).message("\"x\""),
        "TFMT_CONTAINER_RUNTIME names missing runtime \"x\""
    );
}

#[test]
fn runtime_outputs_become_messages() {
    assert_eq!(version_text(true, "Docker 1\n", ""), Some("Docker 1".to_string()));
    assert_eq!(version_text(true, "a", " b "), Some("a\nb".to_string()));
    assert_eq!(version_text(false, "a", ""), None);
    assert_eq!(version_text(true, " ", ""), None);
    let args = vec!["volume".to_string(), "rm".to_string()];
    assert_eq!(command_failure_message("docker", &args, "", ""), "runtime command failed: docker volume rm");
    assert_eq!(
        command_failure_message("docker", &args, " o ", "e"),
        "runtime command failed: docker volume rm\nstdout:\no\nstderr:\ne"
    );
}

#[test]
fn a_suite_succeeds_only_when_every_case_passed() {
    assert_eq!(suite_exit(&[]), SuiteExit::Success);
    assert_eq!(suite_exit(&[true, true]), SuiteExit::Success);
    assert_eq!(suite_exit(&[true, false, true]), SuiteExit::Failure);
}

fn pair(a: &str, p: &str) -> (String, String) {
    (a.to_owned(), p.to_owned())
}

#[test]
fn mounts_keep_each_alias_once_in_ascending_order() {
    let mounts = Mounts::from_pairs(vec![pair("b", "/b"), pair("a", "/a1"), pair("c", "/c"), pair("a", "/a2")]);
    assert_eq!(mounts.entries(), &vec![pair("a", "/a2"), pair("b", "/b"), pair("c", "/c")]);
    let mounts = Mounts::from_pairs(vec![pair("ab", "/x"), pair("a", "/y"), pair("B", "/z")]);
    assert_eq!(mounts.entries(), &vec![pair("B", "/z"), pair("a", "/y"), pair("ab", "/x")]);
}

#[test]
fn setup_script_lists_mounts_in_alias_order() {
    let scenario = SetupScenario {
        id: "s".to_owned(),
        mounts: Mounts::from_pairs(vec![pair("work", "/work"), pair("config", "/config")]),
        setup: vec![SetupOperation::CopyFixtureDir {
            from: "audio".to_owned(),
            mount: "work".to_owned(),
            path: "in".to_owned(),
        }],
        preconditions: vec![Precondition::DifferentDevices { left: "work".to_owned(), right: "config".to_owned() }],
    };
    let script = build_setup_script("case", &scenario).unwrap();
    let chown_config = script.find("chown -R 1000:1000 '/config'").unwrap();
    let chown_work = script.find("chown -R 1000:1000 '/work'").unwrap();
    assert!(chown_config < chown_work);
    assert!(script.starts_with("set -eu; mkdir -p '/work/in'; cp -a '/fixtures'/'audio'/. '/work/in'; "));
    let unknown = SetupScenario {
        id: "s".to_owned(),
        mounts: Mounts::from_pairs(vec![]),
        setup: vec![],
        preconditions: vec![Precondition::DifferentDevices { left: "a".to_owned(), right: "b".to_owned() }],
    };
    assert!(build_setup_script("case", &unknown).is_err());
}
