//! The silent install, as a state machine.
//!
//! A silent run is started by a running instance of the application, which
//! then exits. It installs from the 7z payload beside the installer, starts
//! the installed application and ends; it never creates a shortcut and never
//! reports progress. As in the interactive install, the machine decides and
//! the caller works: `begin_silent` returns the first action, the caller
//! answers each action with a `SilentEvent`, and `advance_silent` returns what
//! comes next, until the state is `Finished`.
//!
//! The run begins by waiting. The instance that started it still holds locks
//! on files of the install directory while it shuts down, and unpacking over
//! them would fail; nothing is touched before the wait is over. On a slow
//! machine the locks may outlive the wait. When the directory or the
//! extraction then fails on a lock, the run backs off and tries again, each
//! time twice as long as before, until the back-offs would add up to more
//! than `MAX_LOCK_WAIT_SECONDS`; then it ends as `StillLocked`.

use vstd::prelude::*;
use crate::payload::{ArchiveKind, InstallRequest, InstallRequestView};
use crate::shortcuts::{executable_path, executable_under};
use crate::text::{join_path, joined, Separator};

verus! {

/// How long a silent run waits for the instance that started it to let go of
/// the install directory, in seconds.
pub const HANDOFF_DELAY_SECONDS: u64 = 3;

/// The first back-off after a failure on a lock, in seconds.
pub const RETRY_DELAY_SECONDS: u64 = 1;

/// The longest that the back-offs of one run may add up to, in seconds.
pub const MAX_LOCK_WAIT_SECONDS: u64 = 30;

/// The system's error code for a file that another process has open.
pub const SHARING_VIOLATION: i32 = 32;

/// The system's error code for a part of a file that another process has
/// locked.
pub const LOCK_VIOLATION: i32 = 33;

/// The directory of the payload beside the installer's executable.
pub const RESOURCE_DIRECTORY: &'static str = "resources";

/// The file name of the payload of a silent install.
pub const SILENT_PAYLOAD_NAME: &'static str = "app.7z";

/// How a silent run ended.
#[derive(Debug, Clone, Copy, PartialEq, Eq, Structural)]
pub enum SilentOutcome {
    /// The install directory could not be created.
    DirectoryFailed,
    /// There is no payload beside the installer.
    PayloadMissing,
    /// The payload could not be unpacked.
    ExtractionFailed,
    /// The install directory was still locked when the back-offs were used up.
    StillLocked,
    /// The application is installed; `launched` tells whether it was started.
    Installed { launched: bool },
}

/// Whether a failure of file-system work is one on a lock held by another
/// process: access was denied, or the system reported a sharing or lock
/// violation.
pub open spec fn is_lock_failure(permission_denied: bool, os_code: Option<i32>) -> bool {
    permission_denied || os_code == Some(SHARING_VIOLATION) || os_code == Some(LOCK_VIOLATION)
}

/// Tells a failure on a lock, which is worth another try, from any other.
pub fn lock_failure(permission_denied: bool, os_code: Option<i32>) -> (locked: bool)
    ensures
        locked == is_lock_failure(permission_denied, os_code),
{
    match os_code {
        Some(code) => permission_denied || code == SHARING_VIOLATION || code == LOCK_VIOLATION,
        None => permission_denied,
    }
}

/// How long a run has backed off, and how long it would back off next.
#[derive(Debug, Clone, Copy, PartialEq, Eq, Structural)]
pub struct Backoff {
    /// The seconds of all back-offs so far.
    pub waited: u64,
    /// The seconds of the next back-off.
    pub next: u64,
}

impl Backoff {
    /// No back-off yet.
    pub open spec fn fresh() -> Backoff {
        Backoff { waited: 0, next: RETRY_DELAY_SECONDS }
    }

    /// Another back-off fits into the maximum wait.
    pub open spec fn can_retry(self) -> bool {
        self.waited + self.next <= MAX_LOCK_WAIT_SECONDS
    }

    /// The back-off after one more: the next delay is added to what was
    /// waited, and doubled.
    pub open spec fn after_retry(self) -> Backoff {
        Backoff { waited: (self.waited + self.next) as u64, next: (2 * self.next) as u64 }
    }

    /// Takes one more back-off if it fits: the new back-off, or `None` when the
    /// maximum wait would be passed.
    pub fn retry(self) -> (later: Option<Backoff>)
        ensures
            later == (if self.can_retry() {
                Some(self.after_retry())
            } else {
                None
            }),
    {
        if self.next <= MAX_LOCK_WAIT_SECONDS && self.waited <= MAX_LOCK_WAIT_SECONDS - self.next {
            Some(Backoff { waited: self.waited + self.next, next: 2 * self.next })
        } else {
            None
        }
    }
}

/// Why a run waits.
#[derive(Debug, Clone, Copy, PartialEq, Eq, Structural)]
pub enum WaitReason {
    /// The instance that started the run is closing.
    Handoff,
    /// The install directory could not be created because of a lock.
    DirectoryLocked,
    /// The payload could not be unpacked because of a lock.
    PayloadLocked,
}

impl SilentOutcome {
    /// The exit code of the process: 0 when the application is installed,
    /// 1 on any failure.
    pub open spec fn exit_code_of(self) -> i32 {
        match self {
            SilentOutcome::Installed { .. } => 0,
            _ => 1,
        }
    }

    /// The exit code of the process.
    pub fn exit_code(self) -> (code: i32)
        ensures
            code == self.exit_code_of(),
    {
        match self {
            SilentOutcome::Installed { .. } => 0,
            _ => 1,
        }
    }
}

/// Where a silent run stands.
#[derive(Debug, Clone, PartialEq, Eq)]
pub enum SilentState {
    /// Waiting for the previous instance to close.
    Waiting { install_path: String },
    /// Waiting for the install directory to be created.
    Provisioning { install_path: String, backoff: Backoff },
    /// Backing off before the install directory is asked for again.
    DirectoryBackoff { install_path: String, backoff: Backoff },
    /// Waiting to learn whether the payload is there.
    Probing { install_path: String, backoff: Backoff },
    /// Waiting for the payload to be unpacked.
    Extracting { request: InstallRequest, backoff: Backoff },
    /// Backing off before the payload is unpacked again.
    ExtractionBackoff { request: InstallRequest, backoff: Backoff },
    /// Waiting for the version to be recorded.
    RecordingVersion { install_path: String },
    /// Waiting to learn whether the installed executable is there.
    FindingExecutable { install_path: String },
    /// Waiting for the application to be started.
    Launching,
    /// The run is over.
    Finished { outcome: SilentOutcome },
}

/// The model of a `SilentState`.
pub enum SilentStateView {
    Waiting { install_path: Seq<char> },
    Provisioning { install_path: Seq<char>, backoff: Backoff },
    DirectoryBackoff { install_path: Seq<char>, backoff: Backoff },
    Probing { install_path: Seq<char>, backoff: Backoff },
    Extracting { request: InstallRequestView, backoff: Backoff },
    ExtractionBackoff { request: InstallRequestView, backoff: Backoff },
    RecordingVersion { install_path: Seq<char> },
    FindingExecutable { install_path: Seq<char> },
    Launching,
    Finished { outcome: SilentOutcome },
}

impl View for SilentState {
    type V = SilentStateView;

    open spec fn view(&self) -> SilentStateView {
        match *self {
            SilentState::Waiting { install_path } => SilentStateView::Waiting {
                install_path: install_path@,
            },
            SilentState::Provisioning { install_path, backoff } => SilentStateView::Provisioning {
                install_path: install_path@,
                backoff,
            },
            SilentState::DirectoryBackoff { install_path, backoff } => SilentStateView::DirectoryBackoff {
                install_path: install_path@,
                backoff,
            },
            SilentState::Probing { install_path, backoff } => SilentStateView::Probing {
                install_path: install_path@,
                backoff,
            },
            SilentState::Extracting { request, backoff } => SilentStateView::Extracting {
                request: request@,
                backoff,
            },
            SilentState::ExtractionBackoff { request, backoff } => SilentStateView::ExtractionBackoff {
                request: request@,
                backoff,
            },
            SilentState::RecordingVersion { install_path } => SilentStateView::RecordingVersion {
                install_path: install_path@,
            },
            SilentState::FindingExecutable { install_path } => SilentStateView::FindingExecutable {
                install_path: install_path@,
            },
            SilentState::Launching => SilentStateView::Launching,
            SilentState::Finished { outcome } => SilentStateView::Finished { outcome },
        }
    }
}

/// What the caller reports back after performing an action.
#[derive(Debug, Clone, PartialEq, Eq)]
pub enum SilentEvent {
    Waited,
    DirectoryProvisioned,
    /// The directory could not be created because of a lock (see
    /// `lock_failure`).
    DirectoryLocked,
    /// The directory could not be created for another reason.
    DirectoryFailed,
    /// The payload exists at `path`.
    PayloadFound { path: String },
    PayloadMissing,
    Extracted,
    /// The payload could not be unpacked because of a lock (see
    /// `lock_failure`).
    ExtractionLocked,
    /// The payload could not be unpacked for another reason.
    ExtractionFailed,
    VersionRecorded,
    ExecutableFound,
    ExecutableMissing,
    Launched,
    LaunchFailed,
}

/// The model of a `SilentEvent`.
pub enum SilentEventView {
    Waited,
    DirectoryProvisioned,
    DirectoryLocked,
    DirectoryFailed,
    PayloadFound { path: Seq<char> },
    PayloadMissing,
    Extracted,
    ExtractionLocked,
    ExtractionFailed,
    VersionRecorded,
    ExecutableFound,
    ExecutableMissing,
    Launched,
    LaunchFailed,
}

impl View for SilentEvent {
    type V = SilentEventView;

    open spec fn view(&self) -> SilentEventView {
        match *self {
            SilentEvent::Waited => SilentEventView::Waited,
            SilentEvent::DirectoryProvisioned => SilentEventView::DirectoryProvisioned,
            SilentEvent::DirectoryLocked => SilentEventView::DirectoryLocked,
            SilentEvent::DirectoryFailed => SilentEventView::DirectoryFailed,
            SilentEvent::PayloadFound { path } => SilentEventView::PayloadFound { path: path@ },
            SilentEvent::PayloadMissing => SilentEventView::PayloadMissing,
            SilentEvent::Extracted => SilentEventView::Extracted,
            SilentEvent::ExtractionLocked => SilentEventView::ExtractionLocked,
            SilentEvent::ExtractionFailed => SilentEventView::ExtractionFailed,
            SilentEvent::VersionRecorded => SilentEventView::VersionRecorded,
            SilentEvent::ExecutableFound => SilentEventView::ExecutableFound,
            SilentEvent::ExecutableMissing => SilentEventView::ExecutableMissing,
            SilentEvent::Launched => SilentEventView::Launched,
            SilentEvent::LaunchFailed => SilentEventView::LaunchFailed,
        }
    }
}

/// What the caller is asked to do. Each action is answered by one event.
#[derive(Debug, Clone, PartialEq, Eq)]
pub enum SilentAction {
    /// Sleep for `seconds`. Answer with `Waited`.
    Wait { seconds: u64, reason: WaitReason },
    /// Create the directory and its missing parents; an existing directory is
    /// no failure. Answer with `DirectoryProvisioned`, `DirectoryLocked` or
    /// `DirectoryFailed`.
    ProvisionDirectory { path: String },
    /// Look for the payload beside the installer (see `silent_payload_path`).
    /// Answer with `PayloadFound` or `PayloadMissing`.
    ProbePayload,
    /// Unpack the payload. Answer with `Extracted`, `ExtractionLocked` or
    /// `ExtractionFailed`.
    Extract { request: InstallRequest },
    /// Read and log the installed version. Answer with `VersionRecorded`.
    RecordVersion { install_path: String },
    /// Look for the installed executable at `path`. Answer with
    /// `ExecutableFound` or `ExecutableMissing`.
    ProbeExecutable { path: String },
    /// Start the executable at `path`. Answer with `Launched` or
    /// `LaunchFailed`.
    Launch { path: String },
}

/// The model of a `SilentAction`.
pub enum SilentActionView {
    Wait { seconds: u64, reason: WaitReason },
    ProvisionDirectory { path: Seq<char> },
    ProbePayload,
    Extract { request: InstallRequestView },
    RecordVersion { install_path: Seq<char> },
    ProbeExecutable { path: Seq<char> },
    Launch { path: Seq<char> },
}

impl View for SilentAction {
    type V = SilentActionView;

    open spec fn view(&self) -> SilentActionView {
        match *self {
            SilentAction::Wait { seconds, reason } => SilentActionView::Wait { seconds, reason },
            SilentAction::ProvisionDirectory { path } => SilentActionView::ProvisionDirectory {
                path: path@,
            },
            SilentAction::ProbePayload => SilentActionView::ProbePayload,
            SilentAction::Extract { request } => SilentActionView::Extract { request: request@ },
            SilentAction::RecordVersion { install_path } => SilentActionView::RecordVersion {
                install_path: install_path@,
            },
            SilentAction::ProbeExecutable { path } => SilentActionView::ProbeExecutable {
                path: path@,
            },
            SilentAction::Launch { path } => SilentActionView::Launch { path: path@ },
        }
    }
}

/// The model of an optional action.
pub open spec fn asked(action: Option<SilentAction>) -> Option<SilentActionView> {
    match action {
        Some(a) => Some(a@),
        None => None,
    }
}

/// The place of the payload of a silent install, given the directory of the
/// installer's executable.
pub open spec fn silent_payload_under(executable_directory: Seq<char>, separator: Separator) -> Seq<
    char,
> {
    joined(
        joined(executable_directory, RESOURCE_DIRECTORY@, separator),
        SILENT_PAYLOAD_NAME@,
        separator,
    )
}

/// The place of the payload of a silent install.
pub fn silent_payload_path(executable_directory: &str, separator: Separator) -> (path: String)
    ensures
        path@ == silent_payload_under(executable_directory@, separator),
{
    let resources = join_path(executable_directory, RESOURCE_DIRECTORY, separator);
    join_path(resources.as_str(), SILENT_PAYLOAD_NAME, separator)
}

/// The wait at the start of a run.
pub open spec fn handoff_wait() -> SilentActionView {
    SilentActionView::Wait { seconds: HANDOFF_DELAY_SECONDS, reason: WaitReason::Handoff }
}

/// The state and the action a silent run starts with: the wait.
pub open spec fn silent_start(install_path: Seq<char>) -> (SilentStateView, Option<SilentActionView>) {
    (SilentStateView::Waiting { install_path }, Some(handoff_wait()))
}

/// The state and the action that follow `event` in `state`, on a host with
/// this separator.
pub open spec fn silent_next(
    state: SilentStateView,
    event: SilentEventView,
    separator: Separator,
) -> (
    SilentStateView,
    Option<SilentActionView>,
) {
    match (state, event) {
        (SilentStateView::Waiting { install_path }, SilentEventView::Waited) => (
            SilentStateView::Provisioning { install_path, backoff: Backoff::fresh() },
            Some(SilentActionView::ProvisionDirectory { path: install_path }),
        ),
        (
            SilentStateView::Provisioning { install_path, backoff },
            SilentEventView::DirectoryProvisioned,
        ) => (
            SilentStateView::Probing { install_path, backoff },
            Some(SilentActionView::ProbePayload),
        ),
        (SilentStateView::Provisioning { install_path, backoff }, SilentEventView::DirectoryLocked) => {
            if backoff.can_retry() {
                (
                    SilentStateView::DirectoryBackoff {
                        install_path,
                        backoff: backoff.after_retry(),
                    },
                    Some(
                        SilentActionView::Wait {
                            seconds: backoff.next,
                            reason: WaitReason::DirectoryLocked,
                        },
                    ),
                )
            } else {
                (SilentStateView::Finished { outcome: SilentOutcome::StillLocked }, None)
            }
        },
        (SilentStateView::Provisioning { install_path, backoff }, SilentEventView::DirectoryFailed) => (
            SilentStateView::Finished { outcome: SilentOutcome::DirectoryFailed },
            None,
        ),
        (SilentStateView::DirectoryBackoff { install_path, backoff }, SilentEventView::Waited) => (
            SilentStateView::Provisioning { install_path, backoff },
            Some(SilentActionView::ProvisionDirectory { path: install_path }),
        ),
        (
            SilentStateView::Probing { install_path, backoff },
            SilentEventView::PayloadFound { path },
        ) => {
            let request = InstallRequestView {
                install_path,
                payload_location: path,
                archive_kind: ArchiveKind::SevenZip,
            };
            (
                SilentStateView::Extracting { request, backoff },
                Some(SilentActionView::Extract { request }),
            )
        },
        (SilentStateView::Probing { install_path, backoff }, SilentEventView::PayloadMissing) => (
            SilentStateView::Finished { outcome: SilentOutcome::PayloadMissing },
            None,
        ),
        (SilentStateView::Extracting { request, backoff }, SilentEventView::Extracted) => (
            SilentStateView::RecordingVersion { install_path: request.install_path },
            Some(SilentActionView::RecordVersion { install_path: request.install_path }),
        ),
        (SilentStateView::Extracting { request, backoff }, SilentEventView::ExtractionLocked) => {
            if backoff.can_retry() {
                (
                    SilentStateView::ExtractionBackoff { request, backoff: backoff.after_retry() },
                    Some(
                        SilentActionView::Wait {
                            seconds: backoff.next,
                            reason: WaitReason::PayloadLocked,
                        },
                    ),
                )
            } else {
                (SilentStateView::Finished { outcome: SilentOutcome::StillLocked }, None)
            }
        },
        (SilentStateView::Extracting { request, backoff }, SilentEventView::ExtractionFailed) => (
            SilentStateView::Finished { outcome: SilentOutcome::ExtractionFailed },
            None,
        ),
        (SilentStateView::ExtractionBackoff { request, backoff }, SilentEventView::Waited) => (
            SilentStateView::Extracting { request, backoff },
            Some(SilentActionView::Extract { request }),
        ),
        (SilentStateView::RecordingVersion { install_path }, SilentEventView::VersionRecorded) => (
            SilentStateView::FindingExecutable { install_path },
            Some(SilentActionView::ProbeExecutable { path: executable_under(install_path, separator) }),
        ),
        (SilentStateView::FindingExecutable { install_path }, SilentEventView::ExecutableFound) => (
            SilentStateView::Launching,
            Some(SilentActionView::Launch { path: executable_under(install_path, separator) }),
        ),
        (SilentStateView::FindingExecutable { install_path }, SilentEventView::ExecutableMissing) => (
            SilentStateView::Finished { outcome: SilentOutcome::Installed { launched: false } },
            None,
        ),
        (SilentStateView::Launching, SilentEventView::Launched) => (
            SilentStateView::Finished { outcome: SilentOutcome::Installed { launched: true } },
            None,
        ),
        (SilentStateView::Launching, SilentEventView::LaunchFailed) => (
            SilentStateView::Finished { outcome: SilentOutcome::Installed { launched: false } },
            None,
        ),
        _ => (state, None),
    }
}

/// Starts a silent install into `install_path`.
pub fn begin_silent(install_path: String) -> (step: (SilentState, Option<SilentAction>))
    ensures
        step.0@ == silent_start(install_path@).0,
        asked(step.1) == silent_start(install_path@).1,
{
    (
        SilentState::Waiting { install_path },
        Some(SilentAction::Wait { seconds: HANDOFF_DELAY_SECONDS, reason: WaitReason::Handoff }),
    )
}

/// Takes `event` in `state`: the next state, and what to do now.
pub fn advance_silent(state: SilentState, event: SilentEvent, separator: Separator) -> (step: (
    SilentState,
    Option<SilentAction>,
))
    ensures
        step.0@ == silent_next(state@, event@, separator).0,
        asked(step.1) == silent_next(state@, event@, separator).1,
{
    match (state, event) {
        (SilentState::Waiting { install_path }, SilentEvent::Waited) => {
            let action = SilentAction::ProvisionDirectory { path: install_path.clone() };
            let backoff = Backoff { waited: 0, next: RETRY_DELAY_SECONDS };
            (SilentState::Provisioning { install_path, backoff }, Some(action))
        },
        (SilentState::Provisioning { install_path, backoff }, SilentEvent::DirectoryProvisioned) => (
            SilentState::Probing { install_path, backoff },
            Some(SilentAction::ProbePayload),
        ),
        (SilentState::Provisioning { install_path, backoff }, SilentEvent::DirectoryLocked) => {
            match backoff.retry() {
                Some(later) => {
                    let action = SilentAction::Wait {
                        seconds: backoff.next,
                        reason: WaitReason::DirectoryLocked,
                    };
                    (SilentState::DirectoryBackoff { install_path, backoff: later }, Some(action))
                },
                None => (SilentState::Finished { outcome: SilentOutcome::StillLocked }, None),
            }
        },
        (SilentState::Provisioning { install_path, backoff }, SilentEvent::DirectoryFailed) => (
            SilentState::Finished { outcome: SilentOutcome::DirectoryFailed },
            None,
        ),
        (SilentState::DirectoryBackoff { install_path, backoff }, SilentEvent::Waited) => {
            let action = SilentAction::ProvisionDirectory { path: install_path.clone() };
            (SilentState::Provisioning { install_path, backoff }, Some(action))
        },
        (SilentState::Probing { install_path, backoff }, SilentEvent::PayloadFound { path }) => {
            let request = InstallRequest {
                install_path,
                payload_location: path,
                archive_kind: ArchiveKind::SevenZip,
            };
            let action = SilentAction::Extract { request: request.duplicate() };
            (SilentState::Extracting { request, backoff }, Some(action))
        },
        (SilentState::Probing { install_path, backoff }, SilentEvent::PayloadMissing) => (
            SilentState::Finished { outcome: SilentOutcome::PayloadMissing },
            None,
        ),
        (SilentState::Extracting { request, backoff }, SilentEvent::Extracted) => {
            let InstallRequest { install_path, .. } = request;
            let action = SilentAction::RecordVersion { install_path: install_path.clone() };
            (SilentState::RecordingVersion { install_path }, Some(action))
        },
        (SilentState::Extracting { request, backoff }, SilentEvent::ExtractionLocked) => {
            match backoff.retry() {
                Some(later) => {
                    let action = SilentAction::Wait {
                        seconds: backoff.next,
                        reason: WaitReason::PayloadLocked,
                    };
                    (SilentState::ExtractionBackoff { request, backoff: later }, Some(action))
                },
                None => (SilentState::Finished { outcome: SilentOutcome::StillLocked }, None),
            }
        },
        (SilentState::Extracting { request, backoff }, SilentEvent::ExtractionFailed) => (
            SilentState::Finished { outcome: SilentOutcome::ExtractionFailed },
            None,
        ),
        (SilentState::ExtractionBackoff { request, backoff }, SilentEvent::Waited) => {
            let action = SilentAction::Extract { request: request.duplicate() };
            (SilentState::Extracting { request, backoff }, Some(action))
        },
        (SilentState::RecordingVersion { install_path }, SilentEvent::VersionRecorded) => {
            let action = SilentAction::ProbeExecutable {
                path: executable_path(install_path.as_str(), separator),
            };
            (SilentState::FindingExecutable { install_path }, Some(action))
        },
        (SilentState::FindingExecutable { install_path }, SilentEvent::ExecutableFound) => {
            let action = SilentAction::Launch { path: executable_path(install_path.as_str(), separator) };
            (SilentState::Launching, Some(action))
        },
        (SilentState::FindingExecutable { install_path }, SilentEvent::ExecutableMissing) => (
            SilentState::Finished { outcome: SilentOutcome::Installed { launched: false } },
            None,
        ),
        (SilentState::Launching, SilentEvent::Launched) => (
            SilentState::Finished { outcome: SilentOutcome::Installed { launched: true } },
            None,
        ),
        (SilentState::Launching, SilentEvent::LaunchFailed) => (
            SilentState::Finished { outcome: SilentOutcome::Installed { launched: false } },
            None,
        ),
        (state, _) => (state, None),
    }
}

impl SilentStateView {
    /// How the run ended, if it has.
    pub open spec fn outcome(self) -> Option<SilentOutcome> {
        match self {
            SilentStateView::Finished { outcome } => Some(outcome),
            _ => None,
        }
    }
}

impl SilentState {
    /// How the run ended: `None` while it is under way.
    pub fn outcome(&self) -> (outcome: Option<SilentOutcome>)
        ensures
            outcome == self@.outcome(),
    {
        match self {
            SilentState::Finished { outcome } => Some(*outcome),
            _ => None,
        }
    }
}

/// The state after `events` were taken one by one from `state`, and the
/// actions that were asked for on the way.
pub open spec fn silent_run(
    state: SilentStateView,
    events: Seq<SilentEventView>,
    separator: Separator,
) -> (
    SilentStateView,
    Seq<SilentActionView>,
)
    decreases events.len(),
{
    if events.len() == 0 {
        (state, Seq::<SilentActionView>::empty())
    } else {
        let (before, actions) = silent_run(state, events.drop_last(), separator);
        let (after, action) = silent_next(before, events.last(), separator);
        match action {
            Some(a) => (after, actions.push(a)),
            None => (after, actions),
        }
    }
}

/// A copy of `event`.
fn clone_silent_event(event: &SilentEvent) -> (copy: SilentEvent)
    ensures
        copy@ == event@,
{
    match event {
        SilentEvent::Waited => SilentEvent::Waited,
        SilentEvent::DirectoryProvisioned => SilentEvent::DirectoryProvisioned,
        SilentEvent::DirectoryLocked => SilentEvent::DirectoryLocked,
        SilentEvent::DirectoryFailed => SilentEvent::DirectoryFailed,
        SilentEvent::PayloadFound { path } => SilentEvent::PayloadFound { path: path.clone() },
        SilentEvent::PayloadMissing => SilentEvent::PayloadMissing,
        SilentEvent::Extracted => SilentEvent::Extracted,
        SilentEvent::ExtractionLocked => SilentEvent::ExtractionLocked,
        SilentEvent::ExtractionFailed => SilentEvent::ExtractionFailed,
        SilentEvent::VersionRecorded => SilentEvent::VersionRecorded,
        SilentEvent::ExecutableFound => SilentEvent::ExecutableFound,
        SilentEvent::ExecutableMissing => SilentEvent::ExecutableMissing,
        SilentEvent::Launched => SilentEvent::Launched,
        SilentEvent::LaunchFailed => SilentEvent::LaunchFailed,
    }
}

/// The models of a list of events.
pub open spec fn silent_event_views(events: Seq<SilentEvent>) -> Seq<SilentEventView> {
    events.map_values(|event: SilentEvent| event@)
}

/// The models of a list of actions.
pub open spec fn silent_action_views(actions: Seq<SilentAction>) -> Seq<SilentActionView> {
    actions.map_values(|action: SilentAction| action@)
}

/// Takes `events` one by one from `state`, as a recorded run is gone through
/// again: the state reached, and every action asked for on the way.
pub fn replay_silent(state: SilentState, events: &Vec<SilentEvent>, separator: Separator) -> (end: (
    SilentState,
    Vec<SilentAction>,
))
    ensures
        end.0@ == silent_run(state@, silent_event_views(events@), separator).0,
        silent_action_views(end.1@) == silent_run(state@, silent_event_views(events@), separator).1,
{
    let ghost first = state@;
    let ghost all = silent_event_views(events@);
    let mut state = state;
    let mut actions: Vec<SilentAction> = Vec::new();
    let mut i: usize = 0;
    proof {
        assert(all.take(0) =~= Seq::<SilentEventView>::empty());
        assert(silent_action_views(actions@) =~= Seq::<SilentActionView>::empty());
    }
    while i < events.len()
        invariant
            i <= events.len(),
            all == silent_event_views(events@),
            state@ == silent_run(first, all.take(i as int), separator).0,
            silent_action_views(actions@) == silent_run(first, all.take(i as int), separator).1,
        decreases events.len() - i,
    {
        proof {
            assert(all.take(i + 1).drop_last() =~= all.take(i as int));
            assert(all.take(i + 1).last() == events@[i as int]@);
        }
        let (after, action) = advance_silent(state, clone_silent_event(&events[i]), separator);
        state = after;
        if let Some(asked_for) = action {
            let ghost before = actions@;
            actions.push(asked_for);
            proof {
                assert(silent_action_views(actions@) =~= silent_action_views(before).push(
                    asked_for@,
                ));
            }
        }
        i += 1;
    }
    proof {
        assert(all.take(events.len() as int) =~= all);
    }
    (state, actions)
}

/// One whole silent run: the start, then `events`.
pub open spec fn silent_trace(
    install_path: Seq<char>,
    events: Seq<SilentEventView>,
    separator: Separator,
) -> (
    SilentStateView,
    Seq<SilentActionView>,
) {
    let (first, action) = silent_start(install_path);
    let (last, more) = silent_run(first, events, separator);
    (last, seq![action->0] + more)
}

/// The step of a silent run that an action belongs to: the wait for the
/// hand-off, the install directory, the look for the payload, the extraction,
/// the version, the look for the executable, the launch. A back-off belongs
/// to the step that it lets try again.
pub open spec fn step_of(action: SilentActionView) -> int {
    match action {
        SilentActionView::Wait { reason, .. } => match reason {
            WaitReason::Handoff => 0,
            WaitReason::DirectoryLocked => 1,
            WaitReason::PayloadLocked => 3,
        },
        SilentActionView::ProvisionDirectory { .. } => 1,
        SilentActionView::ProbePayload => 2,
        SilentActionView::Extract { .. } => 3,
        SilentActionView::RecordVersion { .. } => 4,
        SilentActionView::ProbeExecutable { .. } => 5,
        SilentActionView::Launch { .. } => 6,
    }
}

/// The step that a run in `state` has come to.
pub open spec fn step_reached(state: SilentStateView) -> int {
    match state {
        SilentStateView::Waiting { .. } => 0,
        SilentStateView::Provisioning { .. } => 1,
        SilentStateView::DirectoryBackoff { .. } => 1,
        SilentStateView::Probing { .. } => 2,
        SilentStateView::Extracting { .. } => 3,
        SilentStateView::ExtractionBackoff { .. } => 3,
        SilentStateView::RecordingVersion { .. } => 4,
        SilentStateView::FindingExecutable { .. } => 5,
        SilentStateView::Launching => 6,
        SilentStateView::Finished { outcome } => match outcome {
            SilentOutcome::DirectoryFailed => 1,
            SilentOutcome::PayloadMissing => 2,
            SilentOutcome::ExtractionFailed => 3,
            SilentOutcome::StillLocked => 3,
            SilentOutcome::Installed { .. } => 6,
        },
    }
}

/// The step up to which a run in `state` has asked for every step.
pub open spec fn step_covered(state: SilentStateView) -> int {
    match state {
        SilentStateView::Finished { outcome } => match outcome {
            SilentOutcome::StillLocked => 1,
            SilentOutcome::Installed { launched } => if launched {
                6
            } else {
                5
            },
            _ => step_reached(state),
        },
        _ => step_reached(state),
    }
}

/// No action belongs to an earlier step than an action before it.
pub open spec fn never_back(actions: Seq<SilentActionView>) -> bool {
    forall|i: int, j: int|
        0 <= i <= j < actions.len() ==> step_of(#[trigger] actions[i]) <= step_of(
            #[trigger] actions[j],
        )
}

/// Some action of `actions` belongs to `step`.
pub open spec fn has_step(actions: Seq<SilentActionView>, step: int) -> bool {
    exists|i: int| 0 <= i < actions.len() && step_of(#[trigger] actions[i]) == step
}

/// The seconds of all back-offs among `actions`.
pub open spec fn backed_off(actions: Seq<SilentActionView>) -> int
    decreases actions.len(),
{
    if actions.len() == 0 {
        0
    } else {
        backed_off(actions.drop_last()) + (match actions.last() {
            SilentActionView::Wait { seconds, reason } => if reason == WaitReason::Handoff {
                0int
            } else {
                seconds as int
            },
            _ => 0int,
        })
    }
}

/// The back-off that a run in `state` carries, if it still can back off.
pub open spec fn backoff_of(state: SilentStateView) -> Option<Backoff> {
    match state {
        SilentStateView::Waiting { .. } => Some(Backoff::fresh()),
        SilentStateView::Provisioning { backoff, .. } => Some(backoff),
        SilentStateView::DirectoryBackoff { backoff, .. } => Some(backoff),
        SilentStateView::Probing { backoff, .. } => Some(backoff),
        SilentStateView::Extracting { backoff, .. } => Some(backoff),
        SilentStateView::ExtractionBackoff { backoff, .. } => Some(backoff),
        _ => None,
    }
}

/// What holds of the actions asked for when a run stands in `state`: they
/// never go back, none is beyond the step reached, each step up to the one
/// covered was asked for, and the back-offs add up to what the state has
/// counted, within the maximum wait.
pub open spec fn consistent(state: SilentStateView, actions: Seq<SilentActionView>) -> bool {
    &&& never_back(actions)
    &&& forall|i: int| 0 <= i < actions.len() ==> step_of(#[trigger] actions[i]) <= step_reached(state)
    &&& forall|step: int| 0 <= step <= step_covered(state) ==> #[trigger] has_step(actions, step)
    &&& 0 <= backed_off(actions) <= MAX_LOCK_WAIT_SECONDS
    &&& backoff_of(state) matches Some(backoff) ==> backoff.waited == backed_off(actions)
}

proof fn lemma_step_keeps_consistent(
    state: SilentStateView,
    event: SilentEventView,
    actions: Seq<SilentActionView>,
    separator: Separator,
)
    requires
        consistent(state, actions),
    ensures
        ({
            let (after, action) = silent_next(state, event, separator);
            match action {
                Some(a) => consistent(after, actions.push(a)),
                None => consistent(after, actions),
            }
        }),
{
    let (after, action) = silent_next(state, event, separator);
    match action {
        Some(a) => {
            let longer = actions.push(a);
            assert(longer.drop_last() =~= actions);
            assert(step_of(a) >= step_reached(state));
            assert(step_of(a) <= step_reached(after));
            assert(never_back(longer)) by {
                assert forall|i: int, j: int| 0 <= i <= j < longer.len() implies step_of(
                    #[trigger] longer[i],
                ) <= step_of(#[trigger] longer[j]) by {
                    if j < actions.len() {
                        assert(longer[i] == actions[i] && longer[j] == actions[j]);
                    } else if i < actions.len() {
                        assert(longer[i] == actions[i]);
                    }
                }
            }
            assert forall|i: int| 0 <= i < longer.len() implies step_of(#[trigger] longer[i])
                <= step_reached(after) by {
                if i < actions.len() {
                    assert(longer[i] == actions[i]);
                }
            }
            assert forall|step: int| 0 <= step <= step_covered(after) implies #[trigger] has_step(
                longer,
                step,
            ) by {
                if step <= step_covered(state) {
                    assert(has_step(actions, step));
                    let i = choose|i: int|
                        0 <= i < actions.len() && step_of(#[trigger] actions[i]) == step;
                    assert(longer[i] == actions[i]);
                } else {
                    assert(step_of(longer[actions.len() as int]) == step);
                }
            }
        },
        None => {
            assert forall|step: int| 0 <= step <= step_covered(after) implies #[trigger] has_step(
                actions,
                step,
            ) by {
                assert(step <= step_covered(state));
            }
        },
    }
}

/// From every state, a run keeps its actions consistent with the state it has
/// come to.
pub proof fn lemma_silent_run_consistent(
    state: SilentStateView,
    events: Seq<SilentEventView>,
    earlier: Seq<SilentActionView>,
    separator: Separator,
)
    requires
        consistent(state, earlier),
    ensures
        consistent(
            silent_run(state, events, separator).0,
            earlier + silent_run(state, events, separator).1,
        ),
    decreases events.len(),
{
    if events.len() == 0 {
        assert(earlier + silent_run(state, events, separator).1 =~= earlier);
    } else {
        let (before, actions) = silent_run(state, events.drop_last(), separator);
        lemma_silent_run_consistent(state, events.drop_last(), earlier, separator);
        lemma_step_keeps_consistent(before, events.last(), earlier + actions, separator);
        match silent_next(before, events.last(), separator).1 {
            Some(a) => {
                assert(earlier + actions.push(a) =~= (earlier + actions).push(a));
            },
            None => {},
        }
    }
}

/// A run that is over stays as it is and asks for nothing more.
pub proof fn lemma_finished_run_stays(
    state: SilentStateView,
    events: Seq<SilentEventView>,
    separator: Separator,
)
    requires
        state is Finished,
    ensures
        silent_run(state, events, separator) == (state, Seq::<SilentActionView>::empty()),
    decreases events.len(),
{
    if events.len() > 0 {
        lemma_finished_run_stays(state, events.drop_last(), separator);
    }
}

/// Whatever the caller answers, a silent run begins with the wait of
/// `HANDOFF_DELAY_SECONDS` and then asks for its work step by step without
/// ever going back; it has no action that creates a shortcut. Its back-offs
/// add up to `MAX_LOCK_WAIT_SECONDS` at most. When it ends with a failure,
/// and so with exit code 1, no version was recorded and nothing was launched.
/// When it ends with exit code 0, the payload was unpacked, the version
/// recorded and the executable looked for before.
pub proof fn lemma_silent_run_is_ordered(
    install_path: Seq<char>,
    events: Seq<SilentEventView>,
    separator: Separator,
)
    ensures
        ({
            let (state, actions) = silent_trace(install_path, events, separator);
            &&& actions.len() >= 1
            &&& actions[0] == handoff_wait()
            &&& consistent(state, actions)
            &&& state matches SilentStateView::Finished { outcome } ==> {
                &&& outcome.exit_code_of() == 1 ==> !has_step(actions, 4) && !has_step(actions, 5)
                    && !has_step(actions, 6)
                &&& outcome.exit_code_of() == 0 ==> has_step(actions, 3) && has_step(actions, 4)
                    && has_step(actions, 5)
                &&& outcome == (SilentOutcome::Installed { launched: true }) ==> has_step(actions, 6)
            }
        }),
{
    let (first, action) = silent_start(install_path);
    let earlier = seq![handoff_wait()];
    assert(earlier.drop_last() =~= Seq::<SilentActionView>::empty());
    assert(backed_off(earlier) == 0) by {
        reveal_with_fuel(backed_off, 2);
    }
    assert(has_step(earlier, 0)) by {
        assert(step_of(earlier[0]) == 0);
    }
    lemma_silent_run_consistent(first, events, earlier, separator);
}

/// Until the wait is over nothing else is asked for: answers other than
/// `Waited` leave the run waiting.
pub proof fn lemma_nothing_before_wait_ends(
    install_path: Seq<char>,
    events: Seq<SilentEventView>,
    separator: Separator,
)
    requires
        forall|i: int| 0 <= i < events.len() ==> !(#[trigger] events[i] is Waited),
    ensures
        silent_trace(install_path, events, separator) == (
            SilentStateView::Waiting { install_path },
            seq![handoff_wait()],
        ),
    decreases events.len(),
{
    let first = silent_start(install_path).0;
    let none = Seq::<SilentActionView>::empty();
    if events.len() > 0 {
        lemma_nothing_before_wait_ends(install_path, events.drop_last(), separator);
        assert(!(events[events.len() - 1] is Waited));
        let (before, actions) = silent_run(first, events.drop_last(), separator);
        assert(actions =~= none) by {
            assert((seq![handoff_wait()] + actions).len() == 1);
        }
    }
    assert(seq![handoff_wait()] + none =~= seq![handoff_wait()]);
}

} // verus!
