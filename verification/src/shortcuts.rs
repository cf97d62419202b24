//! Planning the desktop and start-menu shortcuts.
//!
//! A shortcut is created by a PowerShell script that drives the shell's COM
//! object. This module builds the paths and the scripts and judges the
//! outcome; running PowerShell is the caller's part. Every path stands in the
//! script as a single-quoted literal with each quote in it doubled, so that
//! the literal denotes the path whatever the path holds. A run of the shell
//! counts as a success only when it started and exited with code 0.

use vstd::prelude::*;
use vstd::string::*;
use vstd::std_specs::iter::IteratorSpec;
use crate::text::{append_decimal, decimal, join_path, joined, Separator};

verus! {

/// The file name of the installed executable.
pub const EXECUTABLE_NAME: &'static str = "Mangyomi.exe";

/// The program that runs a shortcut script.
pub const SHELL_PROGRAM: &'static str = "powershell";

/// The process creation flag that keeps the shell from opening a console
/// window.
pub const CREATE_NO_WINDOW: u32 = 0x0800_0000;

/// The path of the executable under `install_path`.
pub open spec fn executable_under(install_path: Seq<char>, separator: Separator) -> Seq<char> {
    joined(install_path, EXECUTABLE_NAME@, separator)
}

/// The desktop shortcut of the user whose profile is `user_profile`. The
/// places of the shell are places of Windows and are written with `\`.
pub open spec fn desktop_link(user_profile: Seq<char>) -> Seq<char> {
    user_profile + "\\Desktop\\Mangyomi.lnk"@
}

/// The start-menu directory of the application under `app_data`.
pub open spec fn start_menu_directory(app_data: Seq<char>) -> Seq<char> {
    app_data + "\\Microsoft\\Windows\\Start Menu\\Programs\\Mangyomi"@
}

/// The start-menu shortcut under `app_data`.
pub open spec fn start_menu_link(app_data: Seq<char>) -> Seq<char> {
    start_menu_directory(app_data) + "\\Mangyomi.lnk"@
}

/// One character of a path as it stands in a single-quoted literal: a quote
/// is doubled, any other character stands for itself.
pub open spec fn quote_piece(c: char) -> Seq<char> {
    if c == '\'' {
        seq!['\'', '\'']
    } else {
        seq![c]
    }
}

/// `text` as the body of a single-quoted literal: every quote is doubled.
pub open spec fn quote_escaped(text: Seq<char>) -> Seq<char>
    decreases text.len(),
{
    if text.len() == 0 {
        Seq::<char>::empty()
    } else {
        quote_piece(text[0]) + quote_escaped(text.drop_first())
    }
}

/// The text that a single-quoted literal with this body denotes: two quotes
/// in a row stand for one quote. `None` when the body holds a quote that is
/// not doubled, which would end the literal there.
pub open spec fn literal_value(body: Seq<char>) -> Option<Seq<char>>
    decreases body.len(),
{
    if body.len() == 0 {
        Some(Seq::<char>::empty())
    } else if body[0] != '\'' {
        match literal_value(body.drop_first()) {
            Some(rest) => Some(seq![body[0]] + rest),
            None => None,
        }
    } else if body.len() >= 2 && body[1] == '\'' {
        match literal_value(body.skip(2)) {
            Some(rest) => Some(seq!['\''] + rest),
            None => None,
        }
    } else {
        None
    }
}

/// Whatever a path holds, its escaped form is the body of one literal, and
/// that literal denotes the path: no quote of the path ends the literal.
pub proof fn lemma_escaped_reads_back(text: Seq<char>)
    ensures
        literal_value(quote_escaped(text)) == Some(text),
    decreases text.len(),
{
    if text.len() > 0 {
        let rest = text.drop_first();
        let body = quote_escaped(text);
        lemma_escaped_reads_back(rest);
        if text[0] == '\'' {
            assert(body.skip(2) =~= quote_escaped(rest));
            assert(seq!['\''] + rest =~= text);
        } else {
            assert(body.drop_first() =~= quote_escaped(rest));
            assert(seq![text[0]] + rest =~= text);
        }
    }
}

/// The script that creates the shortcut `link` to `target`, started in
/// `working_directory` and showing the first icon of `target`. Each path
/// stands in it escaped.
pub open spec fn shortcut_script(
    link: Seq<char>,
    target: Seq<char>,
    working_directory: Seq<char>,
) -> Seq<char> {
    "$s=(New-Object -COM WScript.Shell).CreateShortcut('"@ + quote_escaped(link)
        + "');$s.TargetPath='"@ + quote_escaped(target) + "';$s.WorkingDirectory='"@
        + quote_escaped(working_directory) + "';$s.IconLocation='"@ + quote_escaped(target)
        + ",0';$s.Save()"@
}

/// One thing to do for the shortcuts, in the order the plan lists it.
#[derive(Debug, Clone, PartialEq, Eq)]
pub enum ShortcutStep {
    /// Create the directory and its missing parents; a failure is ignored.
    EnsureDirectory { path: String },
    /// Run `script` to create the shortcut at `link_path`, and judge the run
    /// with `ShortcutAttempt::judged`.
    CreateShortcut { link_path: String, script: String },
}

/// The model of a `ShortcutStep`.
pub enum ShortcutStepView {
    EnsureDirectory { path: Seq<char> },
    CreateShortcut { link_path: Seq<char>, script: Seq<char> },
}

impl View for ShortcutStep {
    type V = ShortcutStepView;

    open spec fn view(&self) -> ShortcutStepView {
        match *self {
            ShortcutStep::EnsureDirectory { path } => ShortcutStepView::EnsureDirectory {
                path: path@,
            },
            ShortcutStep::CreateShortcut { link_path, script } => ShortcutStepView::CreateShortcut {
                link_path: link_path@,
                script: script@,
            },
        }
    }
}

/// The models of a list of steps.
pub open spec fn shortcut_views(steps: Seq<ShortcutStep>) -> Seq<ShortcutStepView> {
    steps.map_values(|step: ShortcutStep| step@)
}

/// The steps that register the shortcuts of an install: none when the
/// executable is absent; else the start-menu directory, the desktop shortcut
/// and the start-menu shortcut.
pub open spec fn shortcut_plan(
    install_path: Seq<char>,
    executable_present: bool,
    user_profile: Seq<char>,
    app_data: Seq<char>,
    separator: Separator,
) -> Seq<ShortcutStepView> {
    if !executable_present {
        Seq::<ShortcutStepView>::empty()
    } else {
        let target = executable_under(install_path, separator);
        seq![
            ShortcutStepView::EnsureDirectory { path: start_menu_directory(app_data) },
            ShortcutStepView::CreateShortcut {
                link_path: desktop_link(user_profile),
                script: shortcut_script(desktop_link(user_profile), target, install_path),
            },
            ShortcutStepView::CreateShortcut {
                link_path: start_menu_link(app_data),
                script: shortcut_script(start_menu_link(app_data), target, install_path),
            },
        ]
    }
}

/// The path of the executable under `install_path`.
pub fn executable_path(install_path: &str, separator: Separator) -> (path: String)
    ensures
        path@ == executable_under(install_path@, separator),
{
    join_path(install_path, EXECUTABLE_NAME, separator)
}

/// Doubles every quote of `text`.
pub fn escape_quotes(text: &str) -> (escaped: String)
    ensures
        escaped@ == quote_escaped(text@),
{
    let mut escaped = String::new();
    let mut chars = text.chars();
    let ghost mut i: int = 0;
    proof {
        axiom_spec_iter(text);
        assert(text@.skip(0) =~= text@);
        assert(escaped@ + quote_escaped(text@) =~= quote_escaped(text@));
    }
    loop
        invariant
            0 <= i <= text@.len(),
            chars.remaining() == text@.skip(i),
            quote_escaped(text@) == escaped@ + quote_escaped(text@.skip(i)),
        ensures
            i == text@.len(),
        decreases text@.len() - i,
    {
        let ghost before = chars;
        let ghost so_far = escaped@;
        let next = chars.next();
        proof {
            next_postcondition(&before, &chars, next);
        }
        let c = match next {
            None => {
                break ;
            },
            Some(c) => c,
        };
        proof {
            assert(text@.skip(i)[0] == c);
            assert(text@.skip(i).drop_first() =~= text@.skip(i + 1));
        }
        if c == '\'' {
            escaped.push('\'');
        }
        escaped.push(c);
        proof {
            assert(escaped@ =~= so_far + quote_piece(c));
            assert(escaped@ + quote_escaped(text@.skip(i + 1)) =~= so_far + (quote_piece(c)
                + quote_escaped(text@.skip(i + 1))));
            i = i + 1;
        }
    }
    proof {
        assert(text@.skip(i) =~= Seq::<char>::empty());
        assert(escaped@ + Seq::<char>::empty() =~= escaped@);
    }
    escaped
}

/// Builds the script that creates one shortcut.
pub fn build_script(link: &str, target: &str, working_directory: &str) -> (script: String)
    ensures
        script@ == shortcut_script(link@, target@, working_directory@),
{
    let target_text = escape_quotes(target);
    let mut script = String::from_str("$s=(New-Object -COM WScript.Shell).CreateShortcut('");
    script.append(escape_quotes(link).as_str());
    script.append("');$s.TargetPath='");
    script.append(target_text.as_str());
    script.append("';$s.WorkingDirectory='");
    script.append(escape_quotes(working_directory).as_str());
    script.append("';$s.IconLocation='");
    script.append(target_text.as_str());
    script.append(",0';$s.Save()");
    script
}

/// The arguments that make the shell run `script` unseen and without asking.
pub fn shell_arguments(script: &str) -> (arguments: Vec<String>)
    ensures
        arguments@.map_values(|a: String| a@) == seq![
            "-NoProfile"@,
            "-NonInteractive"@,
            "-WindowStyle"@,
            "Hidden"@,
            "-Command"@,
            script@,
        ],
{
    let mut arguments: Vec<String> = Vec::new();
    arguments.push(String::from_str("-NoProfile"));
    arguments.push(String::from_str("-NonInteractive"));
    arguments.push(String::from_str("-WindowStyle"));
    arguments.push(String::from_str("Hidden"));
    arguments.push(String::from_str("-Command"));
    arguments.push(String::from_str(script));
    assert(arguments@.map_values(|a: String| a@) =~= seq![
        "-NoProfile"@,
        "-NonInteractive"@,
        "-WindowStyle"@,
        "Hidden"@,
        "-Command"@,
        script@,
    ]);
    arguments
}

/// Plans the shortcuts of the install in `install_path`. `user_profile` and
/// `app_data` are the user's profile and application-data directories, empty
/// when unknown. When the executable is absent there is nothing to do, and
/// registration succeeds without a shortcut.
pub fn plan_shortcuts(
    install_path: &str,
    executable_present: bool,
    user_profile: &str,
    app_data: &str,
    separator: Separator,
) -> (steps: Vec<ShortcutStep>)
    ensures
        shortcut_views(steps@) == shortcut_plan(
            install_path@,
            executable_present,
            user_profile@,
            app_data@,
            separator,
        ),
        !executable_present ==> steps@.len() == 0,
{
    let mut steps: Vec<ShortcutStep> = Vec::new();
    if !executable_present {
        assert(shortcut_views(steps@) =~= Seq::<ShortcutStepView>::empty());
        return steps;
    }
    let target = executable_path(install_path, separator);
    let mut desktop = String::from_str(user_profile);
    desktop.append("\\Desktop\\Mangyomi.lnk");
    let mut directory = String::from_str(app_data);
    directory.append("\\Microsoft\\Windows\\Start Menu\\Programs\\Mangyomi");
    let mut menu = directory.clone();
    menu.append("\\Mangyomi.lnk");
    let desktop_script = build_script(desktop.as_str(), target.as_str(), install_path);
    let menu_script = build_script(menu.as_str(), target.as_str(), install_path);
    steps.push(ShortcutStep::EnsureDirectory { path: directory });
    steps.push(ShortcutStep::CreateShortcut { link_path: desktop, script: desktop_script });
    steps.push(ShortcutStep::CreateShortcut { link_path: menu, script: menu_script });
    assert(shortcut_views(steps@) =~= shortcut_plan(
        install_path@,
        executable_present,
        user_profile@,
        app_data@,
        separator,
    ));
    steps
}

/// How the attempt to create one shortcut ended.
#[derive(Debug, Clone, PartialEq, Eq)]
pub struct ShortcutAttempt {
    pub link_path: String,
    /// The error text when the shortcut could not be created.
    pub failure: Option<String>,
}

/// `n` in decimal, with a minus sign when it is negative.
pub open spec fn signed_decimal(n: int) -> Seq<char> {
    if n < 0 {
        "-"@ + decimal((-n) as nat)
    } else {
        decimal(n as nat)
    }
}

/// Why a run of the shell counts as failed, if it does. `start_error` is the
/// error text when the shell could not be started; `exit_code` is the code
/// the shell exited with, or `None` when it ended without one. Only a run that
/// started and exited with code 0 is a success.
pub open spec fn run_failure_of(start_error: Option<Seq<char>>, exit_code: Option<i32>) -> Option<
    Seq<char>,
> {
    match start_error {
        Some(error) => Some(error),
        None => match exit_code {
            Some(code) => if code == 0 {
                None
            } else {
                Some("the shell exited with code "@ + signed_decimal(code as int))
            },
            None => Some("the shell ended without an exit code"@),
        },
    }
}

/// A run of the shell is a success exactly when the shell started and exited
/// with code 0: a shell that ran and could not save the shortcut, and so
/// exited with another code, has failed.
pub proof fn lemma_only_exit_code_0_succeeds(start_error: Option<Seq<char>>, exit_code: Option<i32>)
    ensures
        run_failure_of(start_error, exit_code) is None <==> start_error is None && exit_code
            == Some(0i32),
{
}

/// Judges one run of the shell: the failure text, or `None` for a success.
pub fn run_failure(start_error: Option<String>, exit_code: Option<i32>) -> (failure: Option<
    String,
>)
    ensures
        match failure {
            Some(text) => run_failure_of(
                match start_error {
                    Some(error) => Some(error@),
                    None => None,
                },
                exit_code,
            ) == Some(text@),
            None => run_failure_of(
                match start_error {
                    Some(error) => Some(error@),
                    None => None,
                },
                exit_code,
            ) is None,
        },
{
    if let Some(error) = start_error {
        return Some(error);
    }
    match exit_code {
        Some(code) => {
            if code == 0 {
                None
            } else {
                let mut text = String::from_str("the shell exited with code ");
                if code < 0 {
                    text.append("-");
                    append_decimal(&mut text, (-(code as i64)) as u64);
                } else {
                    append_decimal(&mut text, code as u64);
                }
                Some(text)
            }
        },
        None => Some(String::from_str("the shell ended without an exit code")),
    }
}

impl ShortcutAttempt {
    /// The attempt to create the shortcut at `link_path`, judged from how the
    /// run of the shell ended (see `run_failure_of`).
    pub fn judged(link_path: String, start_error: Option<String>, exit_code: Option<i32>) -> (attempt:
        ShortcutAttempt)
        ensures
            attempt.link_path@ == link_path@,
            match attempt.failure {
                Some(text) => run_failure_of(
                    match start_error {
                        Some(error) => Some(error@),
                        None => None,
                    },
                    exit_code,
                ) == Some(text@),
                None => run_failure_of(
                    match start_error {
                        Some(error) => Some(error@),
                        None => None,
                    },
                    exit_code,
                ) is None,
            },
    {
        ShortcutAttempt { link_path, failure: run_failure(start_error, exit_code) }
    }
}

/// The shortcut that could not be created, and why.
#[derive(Debug, Clone, PartialEq, Eq)]
pub struct ShortcutError {
    pub path: String,
    pub cause: String,
}

/// The first of `attempts` that failed, as its path and its error text.
pub open spec fn first_failure(attempts: Seq<ShortcutAttempt>) -> Option<(Seq<char>, Seq<char>)>
    decreases attempts.len(),
{
    if attempts.len() == 0 {
        None
    } else {
        match first_failure(attempts.drop_last()) {
            Some(found) => Some(found),
            None => match attempts.last().failure {
                Some(cause) => Some((attempts.last().link_path@, cause@)),
                None => None,
            },
        }
    }
}

/// Judges the registration after every shortcut was attempted: it succeeded
/// when no attempt failed, and else failed on the first shortcut that could
/// not be created.
pub fn registration_result(attempts: &Vec<ShortcutAttempt>) -> (result: Result<(), ShortcutError>)
    ensures
        match result {
            Ok(()) => first_failure(attempts@) is None,
            Err(error) => first_failure(attempts@) == Some((error.path@, error.cause@)),
        },
        result is Ok <==> forall|i: int| 0 <= i < attempts@.len() ==> attempts@[i].failure is None,
{
    let mut i: usize = 0;
    assert(attempts@.take(0) =~= Seq::<ShortcutAttempt>::empty());
    while i < attempts.len()
        invariant
            i <= attempts.len(),
            first_failure(attempts@.take(i as int)) is None,
            forall|k: int| 0 <= k < i ==> attempts@[k].failure is None,
        decreases attempts.len() - i,
    {
        proof {
            assert(attempts@.take(i + 1).drop_last() =~= attempts@.take(i as int));
        }
        if let Some(cause) = &attempts[i].failure {
            proof {
                lemma_failure_found(attempts@, i + 1);
            }
            return Err(ShortcutError { path: attempts[i].link_path.clone(), cause: cause.clone() });
        }
        i += 1;
    }
    proof {
        assert(attempts@.take(i as int) =~= attempts@);
    }
    Ok(())
}

/// A failure among the first attempts is the first failure of all.
proof fn lemma_failure_found(attempts: Seq<ShortcutAttempt>, k: int)
    requires
        0 <= k <= attempts.len(),
        first_failure(attempts.take(k)) is Some,
    ensures
        first_failure(attempts) == first_failure(attempts.take(k)),
    decreases attempts.len() - k,
{
    if k == attempts.len() {
        assert(attempts.take(k) =~= attempts);
    } else {
        assert(attempts.take(k + 1).drop_last() =~= attempts.take(k));
        lemma_failure_found(attempts, k + 1);
    }
}

} // verus!
