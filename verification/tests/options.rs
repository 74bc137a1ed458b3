use tfmttools::commands::{TemplateArgs, TemplateChoice};
use tfmttools::handler::MoveMode;
use tfmttools::options::{
    ConfirmMode, FSMode, FsHandler, RenameArgs, RenameContext, RenameOptions, TFMTOptions,
};
use tfmttools::ui::PreviewListSize;

fn app_options(no_confirm: bool, dry_run: bool) -> TFMTOptions {
    TFMTOptions::new(
        "/home/user/.tfmttools".to_owned(),
        "run-1".to_owned(),
        no_confirm,
        dry_run,
        PreviewListSize::Medium,
    )
}

fn bare_args() -> RenameArgs {
    RenameArgs {
        custom_input_directory: None,
        custom_template_directory: None,
        custom_bin_directory: None,
        recursion_depth: None,
        always_copy: false,
        template_args: TemplateArgs { template: None, script: None },
        arguments: vec![],
    }
}

#[test]
fn app_options_follow_the_flags() {
    let options = app_options(true, false);
    assert_eq!(options.confirm_mode(), ConfirmMode::NoConfirm);
    assert_eq!(options.fs_mode(), FSMode::Default);
    assert_eq!(options.run_id(), "run-1");
    assert_eq!(options.config_directory(), "/home/user/.tfmttools");
    assert_eq!(options.preview_list_size(), PreviewListSize::Medium);

    let options = app_options(false, true);
    assert_eq!(options.confirm_mode(), ConfirmMode::Confirm);
    assert_eq!(options.fs_mode(), FSMode::DryRun);
}

#[test]
fn history_file_lies_in_the_config_directory() {
    let options = app_options(false, false);
    assert_eq!(options.history_file_path(), "/home/user/.tfmttools/history.json");
}

#[test]
fn rename_options_default_to_cwd_and_config_directory() {
    let options = app_options(false, false);
    let rename = RenameOptions::from_args(bare_args(), &options, "/music");
    assert_eq!(rename.input_directory(), "/music");
    assert_eq!(rename.template_directory(), "/home/user/.tfmttools");
    assert_eq!(rename.bin_directory(), "/home/user/.tfmttools/bin");
    assert_eq!(rename.recursion_depth(), None);
    assert_eq!(rename.move_mode(), MoveMode::Auto);
    assert!(matches!(rename.template_option(), TemplateChoice::Previous));
    assert!(rename.arguments().is_empty());
}

#[test]
fn rename_options_take_the_given_values() {
    let options = app_options(false, false);
    let args = RenameArgs {
        custom_input_directory: Some("/in".to_owned()),
        custom_template_directory: Some("/templates".to_owned()),
        custom_bin_directory: Some("/bin".to_owned()),
        recursion_depth: Some(2),
        always_copy: true,
        template_args: TemplateArgs { template: Some("simple".to_owned()), script: None },
        arguments: vec!["a".to_owned(), "b".to_owned()],
    };
    let rename = RenameOptions::from_args(args, &options, "/music");
    assert_eq!(rename.input_directory(), "/in");
    assert_eq!(rename.template_directory(), "/templates");
    assert_eq!(rename.bin_directory(), "/bin");
    assert_eq!(rename.recursion_depth(), Some(2));
    assert_eq!(rename.move_mode(), MoveMode::AlwaysCopy);
    assert!(matches!(rename.template_option(), TemplateChoice::FileOrName(t) if t == "simple"));
    assert_eq!(rename.arguments(), &["a".to_owned(), "b".to_owned()][..]);
}

#[test]
fn a_script_is_used_when_no_template_is_given() {
    let options = app_options(false, false);
    let mut args = bare_args();
    args.template_args = TemplateArgs { template: None, script: Some("{{ title }}".to_owned()) };
    let rename = RenameOptions::from_args(args, &options, "/music");
    assert!(matches!(rename.template_option(), TemplateChoice::Script(s) if s == "{{ title }}"));
}

#[test]
fn rename_context_searches_the_input_directory() {
    let options = app_options(false, true);
    let handler = FsHandler::new(options.fs_mode());
    assert!(handler.dry_run());
    let mut args = bare_args();
    args.recursion_depth = Some(1);
    let context = RenameContext::try_from_args(&handler, &options, args, "/music");
    let iterator = context.path_iterator_options();
    assert_eq!(iterator.path, "/music");
    assert_eq!(iterator.depth, Some(1));
    assert!(context.fs_handler().dry_run());
    assert_eq!(context.app_options().run_id(), "run-1");
    assert_eq!(context.rename_options().input_directory(), "/music");
}

#[test]
fn a_default_handler_changes_the_file_system() {
    assert!(!FsHandler::new(FSMode::Default).dry_run());
}
