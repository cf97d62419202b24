//! Reading the command line and choosing the mode of the run.
//!
//! Three flags are known: `--sfx-path <path>`, `--silent` and
//! `--install-path <path>`. Every argument, the first included, is looked at
//! on its own: a flag that takes a value takes the argument after it, whatever
//! that is, and the argument after it is then looked at as well. Where a flag
//! occurs more than once, the last occurrence that has a value counts.
//! Anything else is ignored.

use vstd::prelude::*;
use vstd::string::*;
use crate::payload::text_view;

verus! {

/// The flag that names the self-extracting stub the installer was started from.
pub const SFX_PATH_FLAG: &'static str = "--sfx-path";

/// The flag that asks for a run without the graphical shell.
pub const SILENT_FLAG: &'static str = "--silent";

/// The flag that names the install directory of a silent run.
pub const INSTALL_PATH_FLAG: &'static str = "--install-path";

/// What the command line says.
#[derive(Debug, Clone, PartialEq, Eq)]
pub struct ProcessArguments {
    pub sfx_path: Option<String>,
    pub silent: bool,
    pub install_path: Option<String>,
}

/// The model of `ProcessArguments`.
pub struct ProcessArgumentsView {
    pub sfx_path: Option<Seq<char>>,
    pub silent: bool,
    pub install_path: Option<Seq<char>>,
}

impl View for ProcessArguments {
    type V = ProcessArgumentsView;

    open spec fn view(&self) -> ProcessArgumentsView {
        ProcessArgumentsView {
            sfx_path: text_view(self.sfx_path),
            silent: self.silent,
            install_path: text_view(self.install_path),
        }
    }
}

/// The argument at `i` is `flag` and an argument follows it.
pub open spec fn gives_value(args: Seq<Seq<char>>, flag: Seq<char>, i: int) -> bool {
    0 <= i && i + 1 < args.len() && args[i] == flag
}

/// The value `flag` is given among the first `upto` arguments: the argument
/// after its last occurrence there that has one.
pub open spec fn flag_value(args: Seq<Seq<char>>, flag: Seq<char>, upto: int) -> Option<Seq<char>>
    decreases upto,
{
    if upto <= 0 {
        None
    } else if gives_value(args, flag, upto - 1) {
        Some(args[upto])
    } else {
        flag_value(args, flag, upto - 1)
    }
}

/// `flag` is one of the arguments.
pub open spec fn has_flag(args: Seq<Seq<char>>, flag: Seq<char>) -> bool {
    exists|i: int| 0 <= i < args.len() && #[trigger] args[i] == flag
}

/// What `args` say.
pub open spec fn parsed(args: Seq<Seq<char>>) -> ProcessArgumentsView {
    ProcessArgumentsView {
        sfx_path: flag_value(args, SFX_PATH_FLAG@, args.len() as int),
        silent: has_flag(args, SILENT_FLAG@),
        install_path: flag_value(args, INSTALL_PATH_FLAG@, args.len() as int),
    }
}

/// The texts of the arguments.
pub open spec fn argument_texts(args: Seq<String>) -> Seq<Seq<char>> {
    args.map_values(|a: String| a@)
}

/// A flag has a value exactly when some occurrence of it is followed by an
/// argument, and the value is the argument after the last such occurrence.
pub proof fn lemma_last_value_counts(args: Seq<Seq<char>>, flag: Seq<char>, upto: int)
    requires
        0 <= upto <= args.len(),
    ensures
        match flag_value(args, flag, upto) {
            Some(value) => exists|i: int|
                #![trigger gives_value(args, flag, i)]
                i < upto && gives_value(args, flag, i) && value == args[i + 1] && forall|j: int|
                    i < j < upto ==> !gives_value(args, flag, j),
            None => forall|i: int| i < upto ==> !gives_value(args, flag, i),
        },
    decreases upto,
{
    if upto > 0 {
        if gives_value(args, flag, upto - 1) {
            assert(gives_value(args, flag, upto - 1) && args[upto] == args[upto - 1 + 1]);
        } else {
            lemma_last_value_counts(args, flag, upto - 1);
            if let Some(value) = flag_value(args, flag, upto - 1) {
                let i = choose|i: int|
                    #![trigger gives_value(args, flag, i)]
                    i < upto - 1 && gives_value(args, flag, i) && value == args[i + 1] && forall|
                        j: int,
                    |
                        i < j < upto - 1 ==> !gives_value(args, flag, j);
                assert(gives_value(args, flag, i));
            }
        }
    }
}

/// Whether `argument` is `flag`.
fn is_flag(argument: &String, flag: &str) -> (same: bool)
    ensures
        same == (argument@ == flag@),
{
    let wanted = String::from_str(flag);
    *argument == wanted
}

/// Reads the command line.
pub fn parse_arguments(args: &Vec<String>) -> (arguments: ProcessArguments)
    ensures
        arguments@ == parsed(argument_texts(args@)),
{
    let ghost texts = argument_texts(args@);
    let mut sfx_path: Option<String> = None;
    let mut silent = false;
    let mut install_path: Option<String> = None;
    let n: usize = args.len();
    let mut i: usize = 0;
    while i < n
        invariant
            i <= n == args.len(),
            texts == argument_texts(args@),
            text_view(sfx_path) == flag_value(texts, SFX_PATH_FLAG@, i as int),
            text_view(install_path) == flag_value(texts, INSTALL_PATH_FLAG@, i as int),
            silent == exists|k: int| 0 <= k < i && #[trigger] texts[k] == SILENT_FLAG@,
        decreases n - i,
    {
        assert(texts[i as int] == args@[i as int]@);
        if is_flag(&args[i], SFX_PATH_FLAG) {
            if i + 1 < n {
                assert(texts[i + 1] == args@[i + 1]@);
                sfx_path = Some(args[i + 1].clone());
            }
        }
        if is_flag(&args[i], SILENT_FLAG) {
            silent = true;
        } else if is_flag(&args[i], INSTALL_PATH_FLAG) {
            if i + 1 < n {
                assert(texts[i + 1] == args@[i + 1]@);
                install_path = Some(args[i + 1].clone());
            }
        }
        proof {
            assert(SILENT_FLAG@ != INSTALL_PATH_FLAG@) by {
                reveal_strlit("--silent");
                reveal_strlit("--install-path");
                assert(SILENT_FLAG@.len() != INSTALL_PATH_FLAG@.len());
            }
        }
        i += 1;
    }
    ProcessArguments { sfx_path, silent, install_path }
}

/// How the process runs: exactly one of the two, for its whole life.
#[derive(Debug, Clone, PartialEq, Eq)]
pub enum Mode {
    /// Install into `install_path` without the graphical shell, then exit.
    Silent { install_path: String },
    /// Start the graphical shell and let it ask for the install.
    Interactive,
}

/// The model of a `Mode`.
pub enum ModeView {
    Silent { install_path: Seq<char> },
    Interactive,
}

impl View for Mode {
    type V = ModeView;

    open spec fn view(&self) -> ModeView {
        match *self {
            Mode::Silent { install_path } => ModeView::Silent { install_path: install_path@ },
            Mode::Interactive => ModeView::Interactive,
        }
    }
}

/// The mode that `arguments` ask for: silent when `--silent` is given and an
/// install path is known, else interactive.
pub open spec fn mode_of(arguments: ProcessArgumentsView) -> ModeView {
    match arguments.install_path {
        Some(install_path) if arguments.silent => ModeView::Silent { install_path },
        _ => ModeView::Interactive,
    }
}

/// Chooses the mode of the run.
pub fn select_mode(arguments: &ProcessArguments) -> (mode: Mode)
    ensures
        mode@ == mode_of(arguments@),
{
    if arguments.silent {
        if let Some(install_path) = &arguments.install_path {
            return Mode::Silent { install_path: install_path.clone() };
        }
    }
    Mode::Interactive
}

/// What is known when the process starts. It is made once and handed to the
/// mode that runs.
#[derive(Debug, Clone, PartialEq, Eq)]
pub struct InstallerContext {
    /// The self-extracting stub the installer was started from, if it was
    /// named.
    pub sfx_path: Option<String>,
    pub mode: Mode,
}

/// The model of an `InstallerContext`.
pub struct InstallerContextView {
    pub sfx_path: Option<Seq<char>>,
    pub mode: ModeView,
}

impl View for InstallerContext {
    type V = InstallerContextView;

    open spec fn view(&self) -> InstallerContextView {
        InstallerContextView { sfx_path: text_view(self.sfx_path), mode: self.mode@ }
    }
}

/// The context that `args` give.
pub open spec fn context_of(args: Seq<Seq<char>>) -> InstallerContextView {
    InstallerContextView { sfx_path: parsed(args).sfx_path, mode: mode_of(parsed(args)) }
}

impl InstallerContext {
    /// Reads the command line and chooses the mode.
    pub fn from_arguments(args: &Vec<String>) -> (context: InstallerContext)
        ensures
            context@ == context_of(argument_texts(args@)),
    {
        let arguments = parse_arguments(args);
        let mode = select_mode(&arguments);
        let ProcessArguments { sfx_path, .. } = arguments;
        InstallerContext { sfx_path, mode }
    }
}

} // verus!
