use installer::arguments::{parse_arguments, select_mode, InstallerContext, Mode, ProcessArguments};
use installer::payload::{ArchiveKind, InstallRequest};
use installer::text::Separator;
use installer::silent::{
    advance_silent, begin_silent, lock_failure, replay_silent, silent_payload_path, Backoff,
    SilentAction, SilentEvent, SilentOutcome, SilentState, WaitReason, HANDOFF_DELAY_SECONDS,
    MAX_LOCK_WAIT_SECONDS, RETRY_DELAY_SECONDS,
};

fn args(list: &[&str]) -> Vec<String> {
    list.iter().map(|a| a.to_string()).collect()
}

fn run_silent(events: Vec<SilentEvent>) -> (SilentState, Vec<SilentAction>) {
    let (state, first) = begin_silent("C:\\Out".to_string());
    let mut actions: Vec<SilentAction> = first.into_iter().collect();
    let (state, more) = replay_silent(state, &events, Separator::Backslash);
    actions.extend(more);
    (state, actions)
}

#[test]
fn silent_flag_with_install_path_selects_silent_mode() {
    let parsed = parse_arguments(&args(&["installer.exe", "--silent", "--install-path", "C:\\Out"]));
    assert_eq!(
        parsed,
        ProcessArguments { sfx_path: None, silent: true, install_path: Some("C:\\Out".to_string()) }
    );
    assert_eq!(select_mode(&parsed), Mode::Silent { install_path: "C:\\Out".to_string() });
}

#[test]
fn silent_flag_without_install_path_stays_interactive() {
    let parsed = parse_arguments(&args(&["installer.exe", "--silent"]));
    assert!(parsed.silent);
    assert_eq!(parsed.install_path, None);
    assert_eq!(select_mode(&parsed), Mode::Interactive);
    // A flag at the very end has no value.
    let parsed = parse_arguments(&args(&["installer.exe", "--silent", "--install-path"]));
    assert_eq!(parsed.install_path, None);
    assert_eq!(select_mode(&parsed), Mode::Interactive);
}

#[test]
fn install_path_without_silent_flag_stays_interactive() {
    let parsed = parse_arguments(&args(&["installer.exe", "--install-path", "C:\\Out"]));
    assert!(!parsed.silent);
    assert_eq!(parsed.install_path, Some("C:\\Out".to_string()));
    assert_eq!(select_mode(&parsed), Mode::Interactive);
}

#[test]
fn no_arguments_is_interactive() {
    let parsed = parse_arguments(&args(&[]));
    assert_eq!(parsed, ProcessArguments { sfx_path: None, silent: false, install_path: None });
    assert_eq!(select_mode(&parsed), Mode::Interactive);
}

#[test]
fn sfx_path_is_recorded_and_unknown_flags_are_ignored() {
    let parsed = parse_arguments(&args(&[
        "installer.exe",
        "--verbose",
        "--sfx-path",
        "C:\\Downloads\\setup.exe",
        "extra",
    ]));
    assert_eq!(
        parsed,
        ProcessArguments {
            sfx_path: Some("C:\\Downloads\\setup.exe".to_string()),
            silent: false,
            install_path: None,
        }
    );
}

#[test]
fn last_flag_with_a_value_counts() {
    let parsed = parse_arguments(&args(&[
        "installer.exe",
        "--install-path",
        "C:\\First",
        "--install-path",
        "C:\\Second",
        "--install-path",
    ]));
    assert_eq!(parsed.install_path, Some("C:\\Second".to_string()));
}

#[test]
fn a_value_is_read_as_a_flag_too() {
    let parsed = parse_arguments(&args(&["installer.exe", "--install-path", "--silent"]));
    assert_eq!(parsed.install_path, Some("--silent".to_string()));
    assert!(parsed.silent);
    assert_eq!(select_mode(&parsed), Mode::Silent { install_path: "--silent".to_string() });
}

#[test]
fn silent_payload_lies_beside_the_installer() {
    assert_eq!(silent_payload_path("C:\\Setup", Separator::Backslash), "C:\\Setup\\resources\\app.7z");
    assert_eq!(silent_payload_path("C:\\Setup\\", Separator::Backslash), "C:\\Setup\\resources\\app.7z");
}

#[test]
fn silent_run_begins_with_the_wait() {
    let (state, action) = begin_silent("C:\\Out".to_string());
    assert_eq!(state, SilentState::Waiting { install_path: "C:\\Out".to_string() });
    assert_eq!(action, Some(SilentAction::Wait { seconds: 3, reason: WaitReason::Handoff }));
    assert_eq!(HANDOFF_DELAY_SECONDS, 3);
    // Nothing else happens before the wait is over.
    let (state, action) = advance_silent(state, SilentEvent::DirectoryProvisioned, Separator::Backslash);
    assert_eq!(state, SilentState::Waiting { install_path: "C:\\Out".to_string() });
    assert_eq!(action, None);
}

#[test]
fn silent_install_with_payload_extracts_launches_and_exits_0() {
    let (state, actions) = run_silent(vec![
        SilentEvent::Waited,
        SilentEvent::DirectoryProvisioned,
        SilentEvent::PayloadFound { path: "C:\\Setup\\resources\\app.7z".to_string() },
        SilentEvent::Extracted,
        SilentEvent::VersionRecorded,
        SilentEvent::ExecutableFound,
        SilentEvent::Launched,
    ]);
    assert_eq!(
        actions,
        vec![
            SilentAction::Wait { seconds: 3, reason: WaitReason::Handoff },
            SilentAction::ProvisionDirectory { path: "C:\\Out".to_string() },
            SilentAction::ProbePayload,
            SilentAction::Extract {
                request: InstallRequest {
                    install_path: "C:\\Out".to_string(),
                    payload_location: "C:\\Setup\\resources\\app.7z".to_string(),
                    archive_kind: ArchiveKind::SevenZip,
                }
            },
            SilentAction::RecordVersion { install_path: "C:\\Out".to_string() },
            SilentAction::ProbeExecutable { path: "C:\\Out\\Mangyomi.exe".to_string() },
            SilentAction::Launch { path: "C:\\Out\\Mangyomi.exe".to_string() },
        ]
    );
    assert_eq!(state.outcome(), Some(SilentOutcome::Installed { launched: true }));
    assert_eq!(state.outcome().unwrap().exit_code(), 0);
}

#[test]
fn silent_install_without_executable_exits_0_without_launch() {
    let (state, actions) = run_silent(vec![
        SilentEvent::Waited,
        SilentEvent::DirectoryProvisioned,
        SilentEvent::PayloadFound { path: "C:\\Setup\\resources\\app.7z".to_string() },
        SilentEvent::Extracted,
        SilentEvent::VersionRecorded,
        SilentEvent::ExecutableMissing,
    ]);
    assert_eq!(state.outcome(), Some(SilentOutcome::Installed { launched: false }));
    assert_eq!(state.outcome().unwrap().exit_code(), 0);
    assert!(!actions.iter().any(|a| matches!(a, SilentAction::Launch { .. })));
}

#[test]
fn silent_install_with_failed_launch_still_exits_0() {
    let (state, _) = run_silent(vec![
        SilentEvent::Waited,
        SilentEvent::DirectoryProvisioned,
        SilentEvent::PayloadFound { path: "p".to_string() },
        SilentEvent::Extracted,
        SilentEvent::VersionRecorded,
        SilentEvent::ExecutableFound,
        SilentEvent::LaunchFailed,
    ]);
    assert_eq!(state.outcome(), Some(SilentOutcome::Installed { launched: false }));
    assert_eq!(state.outcome().unwrap().exit_code(), 0);
}

#[test]
fn silent_install_without_payload_exits_1() {
    let (state, actions) = run_silent(vec![
        SilentEvent::Waited,
        SilentEvent::DirectoryProvisioned,
        SilentEvent::PayloadMissing,
    ]);
    assert_eq!(state, SilentState::Finished { outcome: SilentOutcome::PayloadMissing });
    assert_eq!(state.outcome().unwrap().exit_code(), 1);
    assert_eq!(
        actions,
        vec![
            SilentAction::Wait { seconds: 3, reason: WaitReason::Handoff },
            SilentAction::ProvisionDirectory { path: "C:\\Out".to_string() },
            SilentAction::ProbePayload,
        ]
    );
    // The run is over: no later answer starts anything.
    let (state, action) = advance_silent(state, SilentEvent::Extracted, Separator::Backslash);
    assert_eq!(state, SilentState::Finished { outcome: SilentOutcome::PayloadMissing });
    assert_eq!(action, None);
}

#[test]
fn silent_install_exits_1_when_directory_or_extraction_fails() {
    let (state, actions) = run_silent(vec![SilentEvent::Waited, SilentEvent::DirectoryFailed]);
    assert_eq!(state.outcome(), Some(SilentOutcome::DirectoryFailed));
    assert_eq!(SilentOutcome::DirectoryFailed.exit_code(), 1);
    assert_eq!(actions.len(), 2);
    let (state, actions) = run_silent(vec![
        SilentEvent::Waited,
        SilentEvent::DirectoryProvisioned,
        SilentEvent::PayloadFound { path: "p".to_string() },
        SilentEvent::ExtractionFailed,
    ]);
    assert_eq!(state.outcome(), Some(SilentOutcome::ExtractionFailed));
    assert_eq!(SilentOutcome::ExtractionFailed.exit_code(), 1);
    assert_eq!(actions.len(), 4);
}

#[test]
fn replay_of_a_silent_run_takes_the_events_one_by_one() {
    let events = vec![
        SilentEvent::Extracted,
        SilentEvent::Waited,
        SilentEvent::Waited,
        SilentEvent::DirectoryProvisioned,
        SilentEvent::PayloadMissing,
        SilentEvent::Launched,
    ];
    let (start, _) = begin_silent("D:\\App".to_string());
    let mut state = start.clone();
    let mut actions = Vec::new();
    for event in events.clone() {
        let (next, action) = advance_silent(state, event, Separator::Backslash);
        state = next;
        actions.extend(action);
    }
    assert_eq!(replay_silent(start.clone(), &events, Separator::Backslash), (state, actions));
    assert_eq!(replay_silent(start.clone(), &vec![], Separator::Backslash), (start, vec![]));
}

fn request() -> InstallRequest {
    InstallRequest {
        install_path: "C:\\Out".to_string(),
        payload_location: "C:\\Setup\\resources\\app.7z".to_string(),
        archive_kind: ArchiveKind::SevenZip,
    }
}

#[test]
fn failures_on_a_lock_are_told_from_others() {
    assert!(lock_failure(true, None));
    assert!(lock_failure(true, Some(5)));
    assert!(lock_failure(false, Some(32)));
    assert!(lock_failure(false, Some(33)));
    assert!(!lock_failure(false, None));
    assert!(!lock_failure(false, Some(2)));
    assert!(!lock_failure(false, Some(31)));
    assert!(!lock_failure(false, Some(34)));
}

#[test]
fn back_off_doubles_until_the_maximum_wait() {
    assert_eq!(RETRY_DELAY_SECONDS, 1);
    assert_eq!(MAX_LOCK_WAIT_SECONDS, 30);
    let mut backoff = Backoff { waited: 0, next: 1 };
    let mut delays = Vec::new();
    while let Some(later) = backoff.retry() {
        delays.push(backoff.next);
        backoff = later;
    }
    assert_eq!(delays, vec![1, 2, 4, 8]);
    assert_eq!(backoff, Backoff { waited: 15, next: 16 });
    assert_eq!(Backoff { waited: 29, next: 1 }.retry(), Some(Backoff { waited: 30, next: 2 }));
    assert_eq!(Backoff { waited: 30, next: 1 }.retry(), None);
    assert_eq!(Backoff { waited: u64::MAX, next: u64::MAX }.retry(), None);
    assert_eq!(Backoff { waited: 0, next: u64::MAX }.retry(), None);
}

#[test]
fn locked_directory_is_tried_again_after_a_back_off() {
    let (state, actions) = run_silent(vec![
        SilentEvent::Waited,
        SilentEvent::DirectoryLocked,
        SilentEvent::Waited,
        SilentEvent::DirectoryLocked,
        SilentEvent::Waited,
        SilentEvent::DirectoryProvisioned,
    ]);
    assert_eq!(
        actions,
        vec![
            SilentAction::Wait { seconds: 3, reason: WaitReason::Handoff },
            SilentAction::ProvisionDirectory { path: "C:\\Out".to_string() },
            SilentAction::Wait { seconds: 1, reason: WaitReason::DirectoryLocked },
            SilentAction::ProvisionDirectory { path: "C:\\Out".to_string() },
            SilentAction::Wait { seconds: 2, reason: WaitReason::DirectoryLocked },
            SilentAction::ProvisionDirectory { path: "C:\\Out".to_string() },
            SilentAction::ProbePayload,
        ]
    );
    assert_eq!(
        state,
        SilentState::Probing {
            install_path: "C:\\Out".to_string(),
            backoff: Backoff { waited: 3, next: 4 },
        }
    );
}

#[test]
fn locked_extraction_shares_the_wait_with_the_directory() {
    let (state, actions) = run_silent(vec![
        SilentEvent::Waited,
        SilentEvent::DirectoryLocked,
        SilentEvent::Waited,
        SilentEvent::DirectoryProvisioned,
        SilentEvent::PayloadFound { path: "C:\\Setup\\resources\\app.7z".to_string() },
        SilentEvent::ExtractionLocked,
        SilentEvent::Waited,
        SilentEvent::Extracted,
    ]);
    assert_eq!(
        actions[6..],
        [
            SilentAction::Wait { seconds: 2, reason: WaitReason::PayloadLocked },
            SilentAction::Extract { request: request() },
            SilentAction::RecordVersion { install_path: "C:\\Out".to_string() },
        ]
    );
    assert_eq!(state, SilentState::RecordingVersion { install_path: "C:\\Out".to_string() });
}

#[test]
fn a_lock_that_outlives_the_back_offs_ends_the_run_with_exit_code_1() {
    let mut events = vec![SilentEvent::Waited];
    for _ in 0..4 {
        events.push(SilentEvent::DirectoryLocked);
        events.push(SilentEvent::Waited);
    }
    let (state, actions) = run_silent(events.clone());
    assert!(matches!(state, SilentState::Provisioning { .. }));
    let waited: u64 = actions
        .iter()
        .map(|a| match a {
            SilentAction::Wait { seconds, reason } if *reason != WaitReason::Handoff => *seconds,
            _ => 0,
        })
        .sum();
    assert_eq!(waited, 15);
    events.push(SilentEvent::DirectoryLocked);
    let (state, more) = run_silent(events);
    assert_eq!(state, SilentState::Finished { outcome: SilentOutcome::StillLocked });
    assert_eq!(SilentOutcome::StillLocked.exit_code(), 1);
    assert_eq!(more, actions);
}

#[test]
fn context_holds_the_stub_and_the_mode() {
    let context = InstallerContext::from_arguments(&args(&[
        "installer.exe",
        "--sfx-path",
        "C:\\Downloads\\setup.exe",
        "--silent",
        "--install-path",
        "C:\\Out",
    ]));
    assert_eq!(
        context,
        InstallerContext {
            sfx_path: Some("C:\\Downloads\\setup.exe".to_string()),
            mode: Mode::Silent { install_path: "C:\\Out".to_string() },
        }
    );
    let context = InstallerContext::from_arguments(&args(&["installer.exe"]));
    assert_eq!(context, InstallerContext { sfx_path: None, mode: Mode::Interactive });
}

#[test]
fn silent_arguments_with_payload_end_in_exit_code_0_and_without_in_1() {
    let context =
        InstallerContext::from_arguments(&args(&["setup.exe", "--silent", "--install-path", "C:\\Out"]));
    let Mode::Silent { install_path } = context.mode else {
        panic!("unexpected mode: {:?}", context.mode);
    };
    let (start, first) = begin_silent(install_path);
    assert_eq!(first, Some(SilentAction::Wait { seconds: 3, reason: WaitReason::Handoff }));

    let present = vec![
        SilentEvent::Waited,
        SilentEvent::DirectoryProvisioned,
        SilentEvent::PayloadFound { path: silent_payload_path("C:\\Setup", Separator::Backslash) },
        SilentEvent::Extracted,
        SilentEvent::VersionRecorded,
        SilentEvent::ExecutableFound,
        SilentEvent::Launched,
    ];
    let (state, actions) = replay_silent(start.clone(), &present, Separator::Backslash);
    assert_eq!(actions[2], SilentAction::Extract { request: request() });
    assert_eq!(
        actions.last(),
        Some(&SilentAction::Launch { path: "C:\\Out\\Mangyomi.exe".to_string() })
    );
    assert_eq!(state.outcome().map(|o| o.exit_code()), Some(0));

    let absent =
        vec![SilentEvent::Waited, SilentEvent::DirectoryProvisioned, SilentEvent::PayloadMissing];
    let (state, actions) = replay_silent(start, &absent, Separator::Backslash);
    assert_eq!(state.outcome().map(|o| o.exit_code()), Some(1));
    assert_eq!(
        actions,
        vec![
            SilentAction::ProvisionDirectory { path: "C:\\Out".to_string() },
            SilentAction::ProbePayload,
        ]
    );
}

#[test]
fn silent_run_takes_the_separator_of_the_host() {
    assert_eq!(silent_payload_path("/opt/setup", Separator::Slash), "/opt/setup/resources/app.7z");
    let events = vec![
        SilentEvent::Waited,
        SilentEvent::DirectoryProvisioned,
        SilentEvent::PayloadFound { path: "/opt/setup/resources/app.7z".to_string() },
        SilentEvent::Extracted,
        SilentEvent::VersionRecorded,
        SilentEvent::ExecutableFound,
    ];
    let (start, _) = begin_silent("/opt/app".to_string());
    let (_, actions) = replay_silent(start, &events, Separator::Slash);
    assert_eq!(
        actions[4..],
        [
            SilentAction::ProbeExecutable { path: "/opt/app/Mangyomi.exe".to_string() },
            SilentAction::Launch { path: "/opt/app/Mangyomi.exe".to_string() },
        ]
    );
}
