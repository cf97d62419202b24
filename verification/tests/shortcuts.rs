use installer::orchestrator::InstallEvent;
use installer::shortcuts::{
    build_script, escape_quotes, executable_path, plan_shortcuts, registration_result, run_failure,
    shell_arguments, ShortcutAttempt, ShortcutError, ShortcutStep, CREATE_NO_WINDOW,
    EXECUTABLE_NAME, SHELL_PROGRAM,
};
use installer::text::Separator;

fn attempt(path: &str, failure: Option<&str>) -> ShortcutAttempt {
    ShortcutAttempt { link_path: path.to_string(), failure: failure.map(|f| f.to_string()) }
}

#[test]
fn executable_lies_under_the_install_path() {
    assert_eq!(executable_path("C:\\Out", Separator::Backslash), "C:\\Out\\Mangyomi.exe");
    assert_eq!(executable_path("C:\\Out\\", Separator::Backslash), "C:\\Out\\Mangyomi.exe");
    assert_eq!(executable_path("C:/Out/", Separator::Backslash), "C:/Out/Mangyomi.exe");
    assert_eq!(executable_path("", Separator::Backslash), "Mangyomi.exe");
    assert_eq!(EXECUTABLE_NAME, "Mangyomi.exe");
}

#[test]
fn script_sets_target_working_directory_and_icon() {
    assert_eq!(
        build_script("C:\\Users\\me\\Desktop\\Mangyomi.lnk", "C:\\Out\\Mangyomi.exe", "C:\\Out"),
        "$s=(New-Object -COM WScript.Shell).CreateShortcut('C:\\Users\\me\\Desktop\\Mangyomi.lnk');\
$s.TargetPath='C:\\Out\\Mangyomi.exe';$s.WorkingDirectory='C:\\Out';\
$s.IconLocation='C:\\Out\\Mangyomi.exe,0';$s.Save()"
    );
}

#[test]
fn shell_runs_the_script_hidden() {
    assert_eq!(
        shell_arguments("$s.Save()"),
        vec!["-NoProfile", "-NonInteractive", "-WindowStyle", "Hidden", "-Command", "$s.Save()"]
    );
    assert_eq!(SHELL_PROGRAM, "powershell");
    assert_eq!(CREATE_NO_WINDOW, 0x08000000);
}

#[test]
fn present_executable_gets_desktop_and_start_menu_shortcuts() {
    let steps =
        plan_shortcuts("C:\\Out", true, "C:\\Users\\me", "C:\\Users\\me\\AppData\\Roaming", Separator::Backslash);
    let menu_dir =
        "C:\\Users\\me\\AppData\\Roaming\\Microsoft\\Windows\\Start Menu\\Programs\\Mangyomi";
    let desktop = "C:\\Users\\me\\Desktop\\Mangyomi.lnk";
    let menu = format!("{}\\Mangyomi.lnk", menu_dir);
    assert_eq!(
        steps,
        vec![
            ShortcutStep::EnsureDirectory { path: menu_dir.to_string() },
            ShortcutStep::CreateShortcut {
                link_path: desktop.to_string(),
                script: build_script(desktop, "C:\\Out\\Mangyomi.exe", "C:\\Out"),
            },
            ShortcutStep::CreateShortcut {
                link_path: menu.clone(),
                script: build_script(&menu, "C:\\Out\\Mangyomi.exe", "C:\\Out"),
            },
        ]
    );
}

#[test]
fn unknown_profile_directories_count_as_empty() {
    let steps = plan_shortcuts("C:\\Out", true, "", "", Separator::Backslash);
    assert_eq!(
        steps[0],
        ShortcutStep::EnsureDirectory {
            path: "\\Microsoft\\Windows\\Start Menu\\Programs\\Mangyomi".to_string()
        }
    );
    assert!(matches!(
        &steps[1],
        ShortcutStep::CreateShortcut { link_path, .. } if link_path == "\\Desktop\\Mangyomi.lnk"
    ));
}

#[test]
fn absent_executable_plans_nothing() {
    assert_eq!(plan_shortcuts("C:\\Out", false, "C:\\Users\\me", "C:\\Roaming", Separator::Backslash), vec![]);
}

#[test]
fn registration_succeeds_when_no_attempt_failed() {
    assert_eq!(registration_result(&vec![]), Ok(()));
    assert_eq!(registration_result(&vec![attempt("a.lnk", None), attempt("b.lnk", None)]), Ok(()));
}

#[test]
fn registration_fails_on_the_first_failed_shortcut() {
    assert_eq!(
        registration_result(&vec![
            attempt("a.lnk", None),
            attempt("b.lnk", Some("denied")),
        ]),
        Err(ShortcutError { path: "b.lnk".to_string(), cause: "denied".to_string() })
    );
    assert_eq!(
        registration_result(&vec![
            attempt("a.lnk", Some("no shell")),
            attempt("b.lnk", Some("denied")),
        ]),
        Err(ShortcutError { path: "a.lnk".to_string(), cause: "no shell".to_string() })
    );
}

#[test]
fn registration_answer_follows_the_result() {
    assert_eq!(
        InstallEvent::from_registration(&vec![attempt("a.lnk", None)]),
        InstallEvent::ShortcutsRegistered
    );
    assert_eq!(
        InstallEvent::from_registration(&vec![attempt("a.lnk", Some("denied"))]),
        InstallEvent::ShortcutFailed { path: "a.lnk".to_string(), cause: "denied".to_string() }
    );
}

#[test]
fn executable_takes_the_separator_of_the_host() {
    assert_eq!(executable_path("/opt/app", Separator::Slash), "/opt/app/Mangyomi.exe");
    assert_eq!(executable_path("/opt/app/", Separator::Slash), "/opt/app/Mangyomi.exe");
}

#[test]
fn quotes_in_paths_are_doubled() {
    assert_eq!(escape_quotes("C:\\Users\\O'Neil\\App"), "C:\\Users\\O''Neil\\App");
    assert_eq!(escape_quotes(""), "");
    assert_eq!(escape_quotes("'"), "''");
    assert_eq!(escape_quotes("a''b'"), "a''''b''");
    assert_eq!(escape_quotes("plain"), "plain");
}

#[test]
fn script_for_a_path_with_a_quote_keeps_the_path_in_one_literal() {
    let install = "C:\\Users\\O'Neil\\App";
    let target = executable_path(install, Separator::Backslash);
    assert_eq!(target, "C:\\Users\\O'Neil\\App\\Mangyomi.exe");
    assert_eq!(
        build_script("C:\\Users\\O'Neil\\Desktop\\Mangyomi.lnk", &target, install),
        "$s=(New-Object -COM WScript.Shell).CreateShortcut('C:\\Users\\O''Neil\\Desktop\\Mangyomi.lnk');\
$s.TargetPath='C:\\Users\\O''Neil\\App\\Mangyomi.exe';\
$s.WorkingDirectory='C:\\Users\\O''Neil\\App';\
$s.IconLocation='C:\\Users\\O''Neil\\App\\Mangyomi.exe,0';$s.Save()"
    );
    assert_eq!(
        build_script("l", "t", "x';Remove-Item C:\\ -Recurse;'"),
        "$s=(New-Object -COM WScript.Shell).CreateShortcut('l');$s.TargetPath='t';\
$s.WorkingDirectory='x'';Remove-Item C:\\ -Recurse;''';$s.IconLocation='t,0';$s.Save()"
    );
}

#[test]
fn a_shell_run_succeeds_only_with_exit_code_0() {
    assert_eq!(run_failure(None, Some(0)), None);
    assert_eq!(run_failure(None, Some(1)), Some("the shell exited with code 1".to_string()));
    assert_eq!(run_failure(None, Some(-5)), Some("the shell exited with code -5".to_string()));
    assert_eq!(
        run_failure(None, Some(i32::MIN)),
        Some("the shell exited with code -2147483648".to_string())
    );
    assert_eq!(
        run_failure(None, Some(i32::MAX)),
        Some("the shell exited with code 2147483647".to_string())
    );
    assert_eq!(run_failure(None, None), Some("the shell ended without an exit code".to_string()));
    assert_eq!(
        run_failure(Some("program not found".to_string()), None),
        Some("program not found".to_string())
    );
    assert_eq!(
        run_failure(Some("program not found".to_string()), Some(0)),
        Some("program not found".to_string())
    );
}

#[test]
fn a_shell_that_exits_non_zero_fails_the_registration() {
    let attempts = vec![
        ShortcutAttempt::judged("C:\\Users\\me\\Desktop\\Mangyomi.lnk".to_string(), None, Some(0)),
        ShortcutAttempt::judged("C:\\Roaming\\Mangyomi.lnk".to_string(), None, Some(1)),
    ];
    assert_eq!(attempts[0], attempt("C:\\Users\\me\\Desktop\\Mangyomi.lnk", None));
    assert_eq!(
        registration_result(&attempts),
        Err(ShortcutError {
            path: "C:\\Roaming\\Mangyomi.lnk".to_string(),
            cause: "the shell exited with code 1".to_string(),
        })
    );
    assert_eq!(
        InstallEvent::from_registration(&attempts),
        InstallEvent::ShortcutFailed {
            path: "C:\\Roaming\\Mangyomi.lnk".to_string(),
            cause: "the shell exited with code 1".to_string(),
        }
    );
}
