//! The options of a run: those of the whole application and those of a
//! rename, with the defaults that the command line documents.

use crate::commands::{TemplateArgs, TemplateChoice};
use crate::handler::MoveMode;
use crate::paths::{join, utf8_join};
use crate::ui::PreviewListSize;
use vstd::prelude::*;

verus! {

/// Whether questions are asked before acting.
#[derive(Debug, Clone, Copy, PartialEq, Eq, Structural)]
pub enum ConfirmMode {
    Confirm,
    NoConfirm,
}

/// Whether the file system is changed, or only the plan is shown.
#[derive(Debug, Clone, Copy, PartialEq, Eq, Structural)]
pub enum FSMode {
    Default,
    DryRun,
}

/// The options of the whole application.
#[derive(Debug)]
pub struct TFMTOptions {
    config_directory: String,
    run_id: String,
    confirm_mode: ConfirmMode,
    fs_mode: FSMode,
    preview_list_size: PreviewListSize,
}

/// Mathematical view of [`TFMTOptions`].
pub struct TFMTOptionsView {
    pub config_directory: Seq<char>,
    pub run_id: Seq<char>,
    pub confirm_mode: ConfirmMode,
    pub fs_mode: FSMode,
    pub preview_list_size: PreviewListSize,
}

impl View for TFMTOptions {
    type V = TFMTOptionsView;

    closed spec fn view(&self) -> TFMTOptionsView {
        TFMTOptionsView {
            config_directory: self.config_directory@,
            run_id: self.run_id@,
            confirm_mode: self.confirm_mode,
            fs_mode: self.fs_mode,
            preview_list_size: self.preview_list_size,
        }
    }
}

impl TFMTOptions {
    /// The options given on the command line: no confirmation with
    /// `--no-confirm`, no changes with `--dry-run`.
    pub fn new(
        config_directory: String,
        run_id: String,
        no_confirm: bool,
        dry_run: bool,
        preview_list_size: PreviewListSize,
    ) -> (r: Self)
        ensures
            r@ == (TFMTOptionsView {
                config_directory: config_directory@,
                run_id: run_id@,
                confirm_mode: if no_confirm {
                    ConfirmMode::NoConfirm
                } else {
                    ConfirmMode::Confirm
                },
                fs_mode: if dry_run {
                    FSMode::DryRun
                } else {
                    FSMode::Default
                },
                preview_list_size: preview_list_size,
            }),
    {
        TFMTOptions {
            config_directory,
            run_id,
            confirm_mode: if no_confirm {
                ConfirmMode::NoConfirm
            } else {
                ConfirmMode::Confirm
            },
            fs_mode: if dry_run {
                FSMode::DryRun
            } else {
                FSMode::Default
            },
            preview_list_size,
        }
    }

    pub fn config_directory(&self) -> (r: &str)
        ensures
            r@ == self@.config_directory,
    {
        self.config_directory.as_str()
    }

    pub fn run_id(&self) -> (r: &str)
        ensures
            r@ == self@.run_id,
    {
        self.run_id.as_str()
    }

    pub fn confirm_mode(&self) -> (r: ConfirmMode)
        ensures
            r == self@.confirm_mode,
    {
        self.confirm_mode
    }

    pub fn fs_mode(&self) -> (r: FSMode)
        ensures
            r == self@.fs_mode,
    {
        self.fs_mode
    }

    pub fn preview_list_size(&self) -> (r: PreviewListSize)
        ensures
            r == self@.preview_list_size,
    {
        self.preview_list_size
    }

    /// The history file, in the configuration folder.
    pub fn history_file_path(&self) -> (r: String)
        ensures
            r@ == utf8_join(self@.config_directory, "history.json"@),
    {
        join(self.config_directory.as_str(), "history.json")
    }
}

/// The arguments of a rename, as given on the command line.
#[derive(Debug)]
pub struct RenameArgs {
    pub custom_input_directory: Option<String>,
    pub custom_template_directory: Option<String>,
    pub custom_bin_directory: Option<String>,
    pub recursion_depth: Option<usize>,
    pub always_copy: bool,
    pub template_args: TemplateArgs,
    pub arguments: Vec<String>,
}

/// The options of a rename.
#[derive(Debug)]
pub struct RenameOptions {
    input_directory: String,
    template_directory: String,
    bin_directory: String,
    recursion_depth: Option<usize>,
    move_mode: MoveMode,
    template_option: TemplateChoice,
    arguments: Vec<String>,
}

/// Mathematical view of [`RenameOptions`].
pub struct RenameOptionsView {
    pub input_directory: Seq<char>,
    pub template_directory: Seq<char>,
    pub bin_directory: Seq<char>,
    pub recursion_depth: Option<usize>,
    pub move_mode: MoveMode,
    pub template_file: Option<Seq<char>>,
    pub template_script: Option<Seq<char>>,
    pub arguments: Seq<Seq<char>>,
}

impl View for RenameOptions {
    type V = RenameOptionsView;

    closed spec fn view(&self) -> RenameOptionsView {
        RenameOptionsView {
            input_directory: self.input_directory@,
            template_directory: self.template_directory@,
            bin_directory: self.bin_directory@,
            recursion_depth: self.recursion_depth,
            move_mode: self.move_mode,
            template_file: crate::commands::choice_file(self.template_option),
            template_script: crate::commands::choice_script(self.template_option),
            arguments: crate::text::views_of(self.arguments@),
        }
    }
}

/// The given value's text, or `d` where none was given.
pub open spec fn or_default(o: Option<String>, d: Seq<char>) -> Seq<char> {
    match o {
        Some(s) => s@,
        None => d,
    }
}

impl RenameOptions {
    /// The options that [`RenameOptions::from_args`] makes of `args`.
    pub open spec fn from_args_spec(
        args: RenameArgs,
        app_options: TFMTOptionsView,
        current_directory: Seq<char>,
    ) -> RenameOptionsView {
        RenameOptionsView {
            input_directory: or_default(args.custom_input_directory, current_directory),
            template_directory: or_default(
                args.custom_template_directory,
                app_options.config_directory,
            ),
            bin_directory: or_default(
                args.custom_bin_directory,
                utf8_join(app_options.config_directory, "bin"@),
            ),
            recursion_depth: args.recursion_depth,
            move_mode: if args.always_copy {
                MoveMode::AlwaysCopy
            } else {
                MoveMode::Auto
            },
            template_file: match args.template_args.template {
                Some(t) => Some(t@),
                None => None,
            },
            template_script: match args.template_args.template {
                Some(_) => None,
                None => match args.template_args.script {
                    Some(s) => Some(s@),
                    None => None,
                },
            },
            arguments: crate::text::views_of(args.arguments@),
        }
    }

    /// The options of a rename from its arguments: the input folder
    /// defaults to `current_directory`, the template folder to the
    /// configuration folder, the folder of removed files to its `bin`
    /// subfolder; files are always copied with `always_copy`; a template
    /// file or name, else a script, else the previous run's template.
    pub fn from_args(args: RenameArgs, app_options: &TFMTOptions, current_directory: &str) -> (r:
        Self)
        ensures
            r@ == Self::from_args_spec(args, app_options@, current_directory@),
    {
        let RenameArgs {
            custom_input_directory,
            custom_template_directory,
            custom_bin_directory,
            recursion_depth,
            always_copy,
            template_args,
            arguments,
        } = args;
        let input_directory = match custom_input_directory {
            Some(d) => d,
            None => current_directory.to_owned(),
        };
        let template_directory = match custom_template_directory {
            Some(d) => d,
            None => app_options.config_directory.clone(),
        };
        let bin_directory = match custom_bin_directory {
            Some(d) => d,
            None => join(app_options.config_directory.as_str(), "bin"),
        };
        let template_option = match template_args.template {
            Some(t) => TemplateChoice::FileOrName(t),
            None => match template_args.script {
                Some(s) => TemplateChoice::Script(s),
                None => TemplateChoice::Previous,
            },
        };
        RenameOptions {
            input_directory,
            template_directory,
            bin_directory,
            recursion_depth,
            move_mode: if always_copy {
                MoveMode::AlwaysCopy
            } else {
                MoveMode::Auto
            },
            template_option,
            arguments,
        }
    }

    pub fn input_directory(&self) -> (r: &str)
        ensures
            r@ == self@.input_directory,
    {
        self.input_directory.as_str()
    }

    pub fn template_directory(&self) -> (r: &str)
        ensures
            r@ == self@.template_directory,
    {
        self.template_directory.as_str()
    }

    pub fn bin_directory(&self) -> (r: &str)
        ensures
            r@ == self@.bin_directory,
    {
        self.bin_directory.as_str()
    }

    pub fn recursion_depth(&self) -> (r: Option<usize>)
        ensures
            r == self@.recursion_depth,
    {
        self.recursion_depth
    }

    pub fn move_mode(&self) -> (r: MoveMode)
        ensures
            r == self@.move_mode,
    {
        self.move_mode
    }

    pub fn template_option(&self) -> (r: &TemplateChoice)
        ensures
            crate::commands::choice_file(*r) == self@.template_file,
            crate::commands::choice_script(*r) == self@.template_script,
    {
        &self.template_option
    }

    pub fn arguments(&self) -> (r: &[String])
        ensures
            crate::text::views_of(r@) == self@.arguments,
    {
        self.arguments.as_slice()
    }
}

/// How the file system is handled: changed, or left alone in a dry run.
#[derive(Debug)]
pub struct FsHandler {
    fs_mode: FSMode,
}

impl FsHandler {
    pub fn new(fs_mode: FSMode) -> (r: Self)
        ensures
            r.mode() == fs_mode,
    {
        FsHandler { fs_mode }
    }

    pub closed spec fn mode(&self) -> FSMode {
        self.fs_mode
    }

    /// Whether the file system is left alone.
    pub fn dry_run(&self) -> (r: bool)
        ensures
            r == (self.mode() == FSMode::DryRun),
    {
        self.fs_mode == FSMode::DryRun
    }
}

/// Where to look for files, and how deep.
#[derive(Debug)]
pub struct PathIteratorOptions {
    pub path: String,
    pub depth: Option<usize>,
}

impl PathIteratorOptions {
    pub fn with_depth(path: &str, depth: Option<usize>) -> (r: Self)
        ensures
            r.path@ == path@,
            r.depth == depth,
    {
        PathIteratorOptions { path: path.to_owned(), depth }
    }
}

/// Everything a rename works with.
#[derive(Debug)]
pub struct RenameContext<'rc> {
    fs_handler: &'rc FsHandler,
    app_options: &'rc TFMTOptions,
    rename_options: RenameOptions,
}

impl<'rc> RenameContext<'rc> {
    /// The context of a rename from its arguments; `current_directory`
    /// is where the run was started.
    pub fn try_from_args(
        fs_handler: &'rc FsHandler,
        app_options: &'rc TFMTOptions,
        rename_args: RenameArgs,
        current_directory: &str,
    ) -> (r: Self)
        ensures
            r.fs_handler_spec() == fs_handler,
            r.app_options_spec() == app_options,
            r.rename_options_spec()@ == RenameOptions::from_args_spec(
                rename_args,
                app_options@,
                current_directory@,
            ),
    {
        let rename_options = RenameOptions::from_args(rename_args, app_options, current_directory);
        RenameContext { fs_handler, app_options, rename_options }
    }

    pub closed spec fn fs_handler_spec(&self) -> &'rc FsHandler {
        self.fs_handler
    }

    pub closed spec fn app_options_spec(&self) -> &'rc TFMTOptions {
        self.app_options
    }

    pub closed spec fn rename_options_spec(&self) -> RenameOptions {
        self.rename_options
    }

    pub fn fs_handler(&self) -> (r: &FsHandler)
        ensures
            r == self.fs_handler_spec(),
    {
        self.fs_handler
    }

    /// The input folder, searched as deep as the options allow.
    pub fn path_iterator_options(&self) -> (r: PathIteratorOptions)
        ensures
            r.path@ == self.rename_options_spec()@.input_directory,
            r.depth == self.rename_options_spec()@.recursion_depth,
    {
        PathIteratorOptions::with_depth(
            self.rename_options.input_directory(),
            self.rename_options.recursion_depth(),
        )
    }

    pub fn app_options(&self) -> (r: &TFMTOptions)
        ensures
            r == self.app_options_spec(),
    {
        self.app_options
    }

    pub fn rename_options(&self) -> (r: &RenameOptions)
        ensures
            *r == self.rename_options_spec(),
    {
        &self.rename_options
    }
}

} // verus!
