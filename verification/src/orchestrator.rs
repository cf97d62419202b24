//! The interactive install, as a state machine.
//!
//! The machine decides and the caller works. `begin` chooses the payload and
//! returns the first actions; the caller performs the actions in their order,
//! reports what the last of them came to as an `InstallEvent`, and `advance`
//! answers with the next state and the next actions, until the state is
//! `Succeeded` or `Failed`. An event that the state does not wait for changes
//! nothing.

use vstd::prelude::*;
use crate::archive::ExtractFailure;
use crate::error::{InstallError, InstallErrorView};
use crate::payload::{
    both_missing, chosen_payload, probe_view, select_payload, InstallRequest, InstallRequestView,
    PayloadProbe, PayloadProbeView,
};
use crate::progress::{full_progress, is_progress_prefix, Stage};
use crate::text::Separator;
use crate::shortcuts::{
    first_failure, registration_result, shortcut_plan, ShortcutAttempt, ShortcutError,
};

verus! {

/// Where an install stands.
#[derive(Debug, Clone, PartialEq, Eq)]
pub enum InstallState {
    /// Waiting for the install directory to be created.
    Provisioning { request: InstallRequest },
    /// Waiting for the payload to be unpacked.
    Extracting { request: InstallRequest },
    /// Waiting for the shortcuts to be created.
    RegisteringShortcuts { request: InstallRequest },
    /// Waiting for the version to be recorded.
    RecordingVersion { request: InstallRequest },
    /// The install is complete.
    Succeeded,
    /// The install ended with `error`.
    Failed { error: InstallError },
}

/// The model of an `InstallState`.
pub enum InstallStateView {
    Provisioning { request: InstallRequestView },
    Extracting { request: InstallRequestView },
    RegisteringShortcuts { request: InstallRequestView },
    RecordingVersion { request: InstallRequestView },
    Succeeded,
    Failed { error: InstallErrorView },
}

impl View for InstallState {
    type V = InstallStateView;

    open spec fn view(&self) -> InstallStateView {
        match *self {
            InstallState::Provisioning { request } => InstallStateView::Provisioning {
                request: request@,
            },
            InstallState::Extracting { request } => InstallStateView::Extracting {
                request: request@,
            },
            InstallState::RegisteringShortcuts { request } => InstallStateView::RegisteringShortcuts {
                request: request@,
            },
            InstallState::RecordingVersion { request } => InstallStateView::RecordingVersion {
                request: request@,
            },
            InstallState::Succeeded => InstallStateView::Succeeded,
            InstallState::Failed { error } => InstallStateView::Failed { error: error@ },
        }
    }
}

/// What the caller reports back after performing an action.
#[derive(Debug, Clone, PartialEq, Eq)]
pub enum InstallEvent {
    DirectoryProvisioned,
    DirectoryFailed { cause: String },
    Extracted,
    ExtractionFailed { cause: String },
    ShortcutsRegistered,
    ShortcutFailed { path: String, cause: String },
    VersionRecorded,
    VersionRecordFailed { cause: String },
}

/// The model of an `InstallEvent`.
pub enum InstallEventView {
    DirectoryProvisioned,
    DirectoryFailed { cause: Seq<char> },
    Extracted,
    ExtractionFailed { cause: Seq<char> },
    ShortcutsRegistered,
    ShortcutFailed { path: Seq<char>, cause: Seq<char> },
    VersionRecorded,
    VersionRecordFailed { cause: Seq<char> },
}

impl View for InstallEvent {
    type V = InstallEventView;

    open spec fn view(&self) -> InstallEventView {
        match *self {
            InstallEvent::DirectoryProvisioned => InstallEventView::DirectoryProvisioned,
            InstallEvent::DirectoryFailed { cause } => InstallEventView::DirectoryFailed {
                cause: cause@,
            },
            InstallEvent::Extracted => InstallEventView::Extracted,
            InstallEvent::ExtractionFailed { cause } => InstallEventView::ExtractionFailed {
                cause: cause@,
            },
            InstallEvent::ShortcutsRegistered => InstallEventView::ShortcutsRegistered,
            InstallEvent::ShortcutFailed { path, cause } => InstallEventView::ShortcutFailed {
                path: path@,
                cause: cause@,
            },
            InstallEvent::VersionRecorded => InstallEventView::VersionRecorded,
            InstallEvent::VersionRecordFailed { cause } => InstallEventView::VersionRecordFailed {
                cause: cause@,
            },
        }
    }
}

/// The answer that the outcome of shortcut registration makes.
pub open spec fn registration_answer(failure: Option<(Seq<char>, Seq<char>)>) -> InstallEventView {
    match failure {
        None => InstallEventView::ShortcutsRegistered,
        Some((path, cause)) => InstallEventView::ShortcutFailed { path, cause },
    }
}

impl InstallEvent {
    /// The answer to `Extract` when no plan could be made for a zip payload:
    /// `ExtractionFailed` with the message of the failure.
    pub fn from_plan_failure(failure: &ExtractFailure) -> (event: InstallEvent)
        ensures
            event@ == (InstallEventView::ExtractionFailed { cause: failure@.message() }),
    {
        InstallEvent::ExtractionFailed { cause: failure.message() }
    }

    /// The answer to `RegisterShortcuts`, given how every attempt to create a
    /// shortcut ended: `ShortcutsRegistered` when none failed, which is also
    /// the case when there was nothing to create, and else `ShortcutFailed`
    /// with the first shortcut that could not be created.
    pub fn from_registration(attempts: &Vec<ShortcutAttempt>) -> (event: InstallEvent)
        ensures
            event@ == registration_answer(first_failure(attempts@)),
            attempts@.len() == 0 ==> event@ is ShortcutsRegistered,
    {
        match registration_result(attempts) {
            Ok(()) => InstallEvent::ShortcutsRegistered,
            Err(error) => {
                let ShortcutError { path, cause } = error;
                InstallEvent::ShortcutFailed { path, cause }
            },
        }
    }
}

/// What the caller is asked to do.
#[derive(Debug, Clone, PartialEq, Eq)]
pub enum InstallAction {
    /// Create the directory and its missing parents; an existing directory is
    /// no failure. Answer with `DirectoryProvisioned` or `DirectoryFailed`.
    ProvisionDirectory { path: String },
    /// Send the progress event of `stage` to the front end. No answer; a
    /// failure to send is ignored.
    Report { stage: Stage },
    /// Unpack the payload into the install directory. Answer with `Extracted`
    /// or `ExtractionFailed`.
    Extract { request: InstallRequest },
    /// Create the shortcuts. Answer with `ShortcutsRegistered` or
    /// `ShortcutFailed`.
    RegisterShortcuts { install_path: String },
    /// Record the installed version. Answer with `VersionRecorded` or
    /// `VersionRecordFailed`.
    RecordVersion { install_path: String },
}

/// The model of an `InstallAction`.
pub enum InstallActionView {
    ProvisionDirectory { path: Seq<char> },
    Report { stage: Stage },
    Extract { request: InstallRequestView },
    RegisterShortcuts { install_path: Seq<char> },
    RecordVersion { install_path: Seq<char> },
}

impl View for InstallAction {
    type V = InstallActionView;

    open spec fn view(&self) -> InstallActionView {
        match *self {
            InstallAction::ProvisionDirectory { path } => InstallActionView::ProvisionDirectory {
                path: path@,
            },
            InstallAction::Report { stage } => InstallActionView::Report { stage },
            InstallAction::Extract { request } => InstallActionView::Extract { request: request@ },
            InstallAction::RegisterShortcuts { install_path } => InstallActionView::RegisterShortcuts {
                install_path: install_path@,
            },
            InstallAction::RecordVersion { install_path } => InstallActionView::RecordVersion {
                install_path: install_path@,
            },
        }
    }
}

/// The models of a list of actions.
pub open spec fn action_views(actions: Seq<InstallAction>) -> Seq<InstallActionView> {
    actions.map_values(|action: InstallAction| action@)
}

/// The state and the actions an install starts with: the directory is asked
/// for when a payload was found, and the install has failed when none was.
pub open spec fn start(
    install_path: Seq<char>,
    seven_zip: Option<PayloadProbeView>,
    zip: Option<PayloadProbeView>,
) -> (InstallStateView, Seq<InstallActionView>) {
    match chosen_payload(seven_zip, zip) {
        None => (
            InstallStateView::Failed { error: InstallErrorView::PayloadNotFound },
            Seq::<InstallActionView>::empty(),
        ),
        Some((payload_location, archive_kind)) => (
            InstallStateView::Provisioning {
                request: InstallRequestView { install_path, payload_location, archive_kind },
            },
            seq![InstallActionView::ProvisionDirectory { path: install_path }],
        ),
    }
}

/// The state and the actions that follow `event` in `state`.
pub open spec fn next(state: InstallStateView, event: InstallEventView) -> (
    InstallStateView,
    Seq<InstallActionView>,
) {
    match (state, event) {
        (InstallStateView::Provisioning { request }, InstallEventView::DirectoryProvisioned) => (
            InstallStateView::Extracting { request },
            seq![
                InstallActionView::Report { stage: Stage::Extracting },
                InstallActionView::Extract { request },
            ],
        ),
        (InstallStateView::Provisioning { request }, InstallEventView::DirectoryFailed { cause }) => (
            InstallStateView::Failed {
                error: InstallErrorView::IoError { path: request.install_path, cause },
            },
            Seq::<InstallActionView>::empty(),
        ),
        (InstallStateView::Extracting { request }, InstallEventView::Extracted) => (
            InstallStateView::RegisteringShortcuts { request },
            seq![
                InstallActionView::Report { stage: Stage::CreatingShortcuts },
                InstallActionView::RegisterShortcuts { install_path: request.install_path },
            ],
        ),
        (InstallStateView::Extracting { request }, InstallEventView::ExtractionFailed { cause }) => (
            InstallStateView::Failed {
                error: InstallErrorView::ExtractError {
                    kind: request.archive_kind,
                    archive: request.payload_location,
                    cause,
                },
            },
            Seq::<InstallActionView>::empty(),
        ),
        (
            InstallStateView::RegisteringShortcuts { request },
            InstallEventView::ShortcutsRegistered,
        ) => (
            InstallStateView::RecordingVersion { request },
            seq![
                InstallActionView::Report { stage: Stage::SettingUpUpdates },
                InstallActionView::RecordVersion { install_path: request.install_path },
            ],
        ),
        (
            InstallStateView::RegisteringShortcuts { request },
            InstallEventView::ShortcutFailed { path, cause },
        ) => (
            InstallStateView::Failed { error: InstallErrorView::ShortcutError { path, cause } },
            Seq::<InstallActionView>::empty(),
        ),
        (InstallStateView::RecordingVersion { request }, InstallEventView::VersionRecorded) => (
            InstallStateView::Succeeded,
            seq![InstallActionView::Report { stage: Stage::Done }],
        ),
        (
            InstallStateView::RecordingVersion { request },
            InstallEventView::VersionRecordFailed { cause },
        ) => (InstallStateView::Succeeded, seq![InstallActionView::Report { stage: Stage::Done }]),
        _ => (state, Seq::<InstallActionView>::empty()),
    }
}

impl InstallStateView {
    /// The install has ended.
    pub open spec fn is_final(self) -> bool {
        self is Succeeded || self is Failed
    }

    /// How the install ended, if it has.
    pub open spec fn outcome(self) -> Option<Result<(), InstallErrorView>> {
        match self {
            InstallStateView::Succeeded => Some(Ok(())),
            InstallStateView::Failed { error } => Some(Err(error)),
            _ => None,
        }
    }
}

/// The model of an outcome.
pub open spec fn outcome_view(outcome: Option<Result<(), InstallError>>) -> Option<
    Result<(), InstallErrorView>,
> {
    match outcome {
        None => None,
        Some(Ok(())) => Some(Ok(())),
        Some(Err(error)) => Some(Err(error@)),
    }
}

impl InstallState {
    /// Whether the install has ended.
    pub fn is_final(&self) -> (ended: bool)
        ensures
            ended == self@.is_final(),
    {
        match self {
            InstallState::Succeeded => true,
            InstallState::Failed { .. } => true,
            _ => false,
        }
    }

    /// How the install ended: `None` while it is under way.
    pub fn outcome(&self) -> (outcome: Option<Result<(), InstallError>>)
        ensures
            outcome_view(outcome) == self@.outcome(),
    {
        match self {
            InstallState::Succeeded => Some(Ok(())),
            InstallState::Failed { error } => {
                let copy = clone_error(error);
                Some(Err(copy))
            },
            _ => None,
        }
    }
}

/// A copy of `error`.
fn clone_error(error: &InstallError) -> (copy: InstallError)
    ensures
        copy@ == error@,
{
    match error {
        InstallError::PayloadNotFound => InstallError::PayloadNotFound,
        InstallError::IoError { path, cause } => InstallError::IoError {
            path: path.clone(),
            cause: cause.clone(),
        },
        InstallError::ExtractError { kind, archive, cause } => InstallError::ExtractError {
            kind: *kind,
            archive: archive.clone(),
            cause: cause.clone(),
        },
        InstallError::ShortcutError { path, cause } => InstallError::ShortcutError {
            path: path.clone(),
            cause: cause.clone(),
        },
    }
}

/// Starts an install into `install_path`, given what was found at the places
/// of the two payloads.
pub fn begin(
    install_path: String,
    seven_zip: Option<PayloadProbe>,
    zip: Option<PayloadProbe>,
) -> (step: (
    InstallState,
    Vec<InstallAction>,
))
    ensures
        step.0@ == start(install_path@, probe_view(seven_zip), probe_view(zip)).0,
        action_views(step.1@) == start(install_path@, probe_view(seven_zip), probe_view(zip)).1,
{
    let mut actions: Vec<InstallAction> = Vec::new();
    match select_payload(seven_zip, zip) {
        None => {
            assert(action_views(actions@) =~= Seq::<InstallActionView>::empty());
            (InstallState::Failed { error: InstallError::PayloadNotFound }, actions)
        },
        Some((payload_location, archive_kind)) => {
            actions.push(InstallAction::ProvisionDirectory { path: install_path.clone() });
            assert(action_views(actions@) =~= seq![
                InstallActionView::ProvisionDirectory { path: install_path@ },
            ]);
            (
                InstallState::Provisioning {
                    request: InstallRequest { install_path, payload_location, archive_kind },
                },
                actions,
            )
        },
    }
}

/// A progress report followed by one piece of work.
fn report_then(stage: Stage, work: InstallAction) -> (actions: Vec<InstallAction>)
    ensures
        action_views(actions@) == seq![InstallActionView::Report { stage }, work@],
{
    let mut actions: Vec<InstallAction> = Vec::new();
    actions.push(InstallAction::Report { stage });
    actions.push(work);
    assert(action_views(actions@) =~= seq![InstallActionView::Report { stage }, work@]);
    actions
}

/// No action.
fn nothing() -> (actions: Vec<InstallAction>)
    ensures
        action_views(actions@) == Seq::<InstallActionView>::empty(),
{
    let actions: Vec<InstallAction> = Vec::new();
    assert(action_views(actions@) =~= Seq::<InstallActionView>::empty());
    actions
}

/// Takes `event` in `state`: the next state, and what to do now.
pub fn advance(state: InstallState, event: InstallEvent) -> (step: (InstallState, Vec<InstallAction>))
    ensures
        step.0@ == next(state@, event@).0,
        action_views(step.1@) == next(state@, event@).1,
{
    match (state, event) {
        (InstallState::Provisioning { request }, InstallEvent::DirectoryProvisioned) => {
            let work = InstallAction::Extract { request: request.duplicate() };
            (InstallState::Extracting { request }, report_then(Stage::Extracting, work))
        },
        (InstallState::Provisioning { request }, InstallEvent::DirectoryFailed { cause }) => {
            let InstallRequest { install_path, .. } = request;
            (InstallState::Failed { error: InstallError::IoError { path: install_path, cause } }, nothing())
        },
        (InstallState::Extracting { request }, InstallEvent::Extracted) => {
            let work = InstallAction::RegisterShortcuts { install_path: request.install_path.clone() };
            (
                InstallState::RegisteringShortcuts { request },
                report_then(Stage::CreatingShortcuts, work),
            )
        },
        (InstallState::Extracting { request }, InstallEvent::ExtractionFailed { cause }) => {
            let InstallRequest { payload_location, archive_kind, .. } = request;
            (
                InstallState::Failed {
                    error: InstallError::ExtractError {
                        kind: archive_kind,
                        archive: payload_location,
                        cause,
                    },
                },
                nothing(),
            )
        },
        (InstallState::RegisteringShortcuts { request }, InstallEvent::ShortcutsRegistered) => {
            let work = InstallAction::RecordVersion { install_path: request.install_path.clone() };
            (InstallState::RecordingVersion { request }, report_then(Stage::SettingUpUpdates, work))
        },
        (
            InstallState::RegisteringShortcuts { request },
            InstallEvent::ShortcutFailed { path, cause },
        ) => (InstallState::Failed { error: InstallError::ShortcutError { path, cause } }, nothing()),
        (InstallState::RecordingVersion { request }, InstallEvent::VersionRecorded) => {
            (InstallState::Succeeded, done())
        },
        (InstallState::RecordingVersion { request }, InstallEvent::VersionRecordFailed { cause }) => {
            (InstallState::Succeeded, done())
        },
        (state, _) => (state, nothing()),
    }
}

/// The last progress report.
fn done() -> (actions: Vec<InstallAction>)
    ensures
        action_views(actions@) == seq![InstallActionView::Report { stage: Stage::Done }],
{
    let mut actions: Vec<InstallAction> = Vec::new();
    actions.push(InstallAction::Report { stage: Stage::Done });
    assert(action_views(actions@) =~= seq![InstallActionView::Report { stage: Stage::Done }]);
    actions
}

/// The state after `events` were taken one by one from `state`, and all the
/// actions that were asked for on the way.
pub open spec fn run(state: InstallStateView, events: Seq<InstallEventView>) -> (
    InstallStateView,
    Seq<InstallActionView>,
)
    decreases events.len(),
{
    if events.len() == 0 {
        (state, Seq::<InstallActionView>::empty())
    } else {
        let (before, actions) = run(state, events.drop_last());
        let (after, more) = next(before, events.last());
        (after, actions + more)
    }
}

/// One whole install: the start, then `events`.
pub open spec fn install_trace(
    install_path: Seq<char>,
    seven_zip: Option<PayloadProbeView>,
    zip: Option<PayloadProbeView>,
    events: Seq<InstallEventView>,
) -> (InstallStateView, Seq<InstallActionView>) {
    let (first, actions) = start(install_path, seven_zip, zip);
    let (last, more) = run(first, events);
    (last, actions + more)
}

/// A copy of `event`.
fn clone_event(event: &InstallEvent) -> (copy: InstallEvent)
    ensures
        copy@ == event@,
{
    match event {
        InstallEvent::DirectoryProvisioned => InstallEvent::DirectoryProvisioned,
        InstallEvent::DirectoryFailed { cause } => InstallEvent::DirectoryFailed {
            cause: cause.clone(),
        },
        InstallEvent::Extracted => InstallEvent::Extracted,
        InstallEvent::ExtractionFailed { cause } => InstallEvent::ExtractionFailed {
            cause: cause.clone(),
        },
        InstallEvent::ShortcutsRegistered => InstallEvent::ShortcutsRegistered,
        InstallEvent::ShortcutFailed { path, cause } => InstallEvent::ShortcutFailed {
            path: path.clone(),
            cause: cause.clone(),
        },
        InstallEvent::VersionRecorded => InstallEvent::VersionRecorded,
        InstallEvent::VersionRecordFailed { cause } => InstallEvent::VersionRecordFailed {
            cause: cause.clone(),
        },
    }
}

/// The models of a list of events.
pub open spec fn event_views(events: Seq<InstallEvent>) -> Seq<InstallEventView> {
    events.map_values(|event: InstallEvent| event@)
}

/// Takes `events` one by one from `state`, as a recorded install is gone
/// through again: the state reached, and every action asked for on the way.
pub fn replay(state: InstallState, events: &Vec<InstallEvent>) -> (end: (
    InstallState,
    Vec<InstallAction>,
))
    ensures
        end.0@ == run(state@, event_views(events@)).0,
        action_views(end.1@) == run(state@, event_views(events@)).1,
{
    let ghost first = state@;
    let ghost all = event_views(events@);
    let mut state = state;
    let mut actions: Vec<InstallAction> = Vec::new();
    let mut i: usize = 0;
    proof {
        assert(all.take(0) =~= Seq::<InstallEventView>::empty());
        assert(action_views(actions@) =~= Seq::<InstallActionView>::empty());
    }
    while i < events.len()
        invariant
            i <= events.len(),
            all == event_views(events@),
            state@ == run(first, all.take(i as int)).0,
            action_views(actions@) == run(first, all.take(i as int)).1,
        decreases events.len() - i,
    {
        proof {
            assert(all.take(i + 1).drop_last() =~= all.take(i as int));
            assert(all.take(i + 1).last() == events@[i as int]@);
        }
        let (after, mut more) = advance(state, clone_event(&events[i]));
        let ghost before = actions@;
        let ghost added = more@;
        state = after;
        actions.append(&mut more);
        proof {
            assert(action_views(actions@) =~= action_views(before) + action_views(added));
        }
        i += 1;
    }
    proof {
        assert(all.take(events.len() as int) =~= all);
    }
    (state, actions)
}

/// The stages that `actions` report, in their order.
pub open spec fn reports(actions: Seq<InstallActionView>) -> Seq<Stage>
    decreases actions.len(),
{
    if actions.len() == 0 {
        Seq::<Stage>::empty()
    } else {
        match actions.last() {
            InstallActionView::Report { stage } => reports(actions.drop_last()).push(stage),
            _ => reports(actions.drop_last()),
        }
    }
}

/// The stages that have been reported when an install stands in `state`.
pub open spec fn reported_in(state: InstallStateView) -> Seq<Stage> {
    match state {
        InstallStateView::Provisioning { .. } => full_progress().take(0),
        InstallStateView::Extracting { .. } => full_progress().take(1),
        InstallStateView::RegisteringShortcuts { .. } => full_progress().take(2),
        InstallStateView::RecordingVersion { .. } => full_progress().take(3),
        InstallStateView::Succeeded => full_progress(),
        InstallStateView::Failed { error } => match error {
            InstallErrorView::PayloadNotFound => full_progress().take(0),
            InstallErrorView::IoError { .. } => full_progress().take(0),
            InstallErrorView::ExtractError { .. } => full_progress().take(1),
            InstallErrorView::ShortcutError { .. } => full_progress().take(2),
        },
    }
}

proof fn lemma_reports_append(first: Seq<InstallActionView>, second: Seq<InstallActionView>)
    ensures
        reports(first + second) == reports(first) + reports(second),
    decreases second.len(),
{
    if second.len() == 0 {
        assert(first + second =~= first);
        assert(reports(first) + reports(second) =~= reports(first));
    } else {
        assert((first + second).drop_last() =~= first + second.drop_last());
        lemma_reports_append(first, second.drop_last());
        assert(reports(first + second) =~= reports(first) + reports(second));
    }
}

proof fn lemma_step_reports(state: InstallStateView, event: InstallEventView)
    ensures
        reported_in(next(state, event).0) == reported_in(state) + reports(next(state, event).1),
{
    reveal_with_fuel(reports, 3);
    let (after, more) = next(state, event);
    assert(reported_in(after) =~= reported_in(state) + reports(more));
}

/// From every state, what is reported while events are taken continues what
/// had been reported before: the reports always match the state reached.
pub proof fn lemma_reports_follow_state(
    state: InstallStateView,
    events: Seq<InstallEventView>,
    earlier: Seq<InstallActionView>,
)
    requires
        reports(earlier) == reported_in(state),
    ensures
        reports(earlier + run(state, events).1) == reported_in(run(state, events).0),
    decreases events.len(),
{
    if events.len() == 0 {
        assert(earlier + run(state, events).1 =~= earlier);
    } else {
        let (before, actions) = run(state, events.drop_last());
        let (after, more) = next(before, events.last());
        lemma_reports_follow_state(state, events.drop_last(), earlier);
        lemma_step_reports(before, events.last());
        lemma_reports_append(earlier + actions, more);
        assert(earlier + (actions + more) =~= (earlier + actions) + more);
    }
}

/// An install that has ended stays as it is and asks for nothing more.
pub proof fn lemma_final_state_stays(state: InstallStateView, events: Seq<InstallEventView>)
    requires
        state.is_final(),
    ensures
        run(state, events) == (state, Seq::<InstallActionView>::empty()),
    decreases events.len(),
{
    if events.len() > 0 {
        lemma_final_state_stays(state, events.drop_last());
        assert(Seq::<InstallActionView>::empty() + Seq::<InstallActionView>::empty()
            =~= Seq::<InstallActionView>::empty());
    }
}

/// Whatever is found and whatever the caller answers, the progress reports of
/// one install are the first stages of the sequence 10, 80, 90, 100, each at
/// most once and in that order. They are the whole sequence exactly when the
/// install succeeded. After a shortcut failure they stop at 80, so that the
/// 90 report is never made; after a failed extraction they stop at 10, and
/// when the directory cannot be created nothing is reported.
pub proof fn lemma_progress_in_order(
    install_path: Seq<char>,
    seven_zip: Option<PayloadProbeView>,
    zip: Option<PayloadProbeView>,
    events: Seq<InstallEventView>,
)
    ensures
        ({
            let (state, actions) = install_trace(install_path, seven_zip, zip, events);
            &&& reports(actions) == reported_in(state)
            &&& is_progress_prefix(reports(actions))
            &&& state is Succeeded <==> reports(actions) == full_progress()
            &&& state matches InstallStateView::Failed { error } ==> (match error {
                InstallErrorView::ShortcutError { .. } => reports(actions) == seq![
                    Stage::Extracting,
                    Stage::CreatingShortcuts,
                ],
                InstallErrorView::ExtractError { .. } => reports(actions) == seq![Stage::Extracting],
                _ => reports(actions) == Seq::<Stage>::empty(),
            })
        }),
{
    reveal_with_fuel(reports, 2);
    let (first, actions) = start(install_path, seven_zip, zip);
    assert(reports(actions) =~= reported_in(first));
    lemma_reports_follow_state(first, events, actions);
    let (state, all) = install_trace(install_path, seven_zip, zip, events);
    let stages = reports(all);
    assert(stages == reported_in(state));
    assert(full_progress().take(4) =~= full_progress());
    assert(stages =~= full_progress().take(stages.len() as int));
    assert(full_progress().take(2) =~= seq![Stage::Extracting, Stage::CreatingShortcuts]);
    assert(full_progress().take(1) =~= seq![Stage::Extracting]);
    assert(full_progress().take(0) =~= Seq::<Stage>::empty());
}

/// When both payloads are missing, whether their places resolved or not, the
/// install fails with `PayloadNotFound` before anything is asked of the
/// caller: no directory is created, nothing is unpacked, no shortcut is made,
/// and no answer changes that.
pub proof fn lemma_missing_payload_does_nothing(
    install_path: Seq<char>,
    seven_zip: Option<PayloadProbeView>,
    zip: Option<PayloadProbeView>,
    events: Seq<InstallEventView>,
)
    requires
        both_missing(seven_zip, zip),
    ensures
        install_trace(install_path, seven_zip, zip, events) == (
            InstallStateView::Failed { error: InstallErrorView::PayloadNotFound },
            Seq::<InstallActionView>::empty(),
        ),
{
    let (first, actions) = start(install_path, seven_zip, zip);
    lemma_final_state_stays(first, events);
    assert(actions + Seq::<InstallActionView>::empty() =~= actions);
}

/// When a shortcut cannot be created while the install waits for the
/// shortcuts, the install fails with that shortcut's path and error, and
/// whatever is answered afterwards it asks for nothing more: the version is
/// not recorded and nothing further is reported.
pub proof fn lemma_shortcut_failure_ends_install(
    request: InstallRequestView,
    path: Seq<char>,
    cause: Seq<char>,
    later: Seq<InstallEventView>,
)
    ensures
        run(
            InstallStateView::RegisteringShortcuts { request },
            seq![InstallEventView::ShortcutFailed { path, cause }] + later,
        ) == (
            InstallStateView::Failed { error: InstallErrorView::ShortcutError { path, cause } },
            Seq::<InstallActionView>::empty(),
        ),
    decreases later.len(),
{
    let state = InstallStateView::RegisteringShortcuts { request };
    let failure = seq![InstallEventView::ShortcutFailed { path, cause }];
    let none = Seq::<InstallActionView>::empty();
    if later.len() == 0 {
        assert(failure + later =~= failure);
        assert(failure.drop_last() =~= Seq::<InstallEventView>::empty());
        assert(run(state, failure.drop_last()) == (state, none));
        assert(none + none =~= none);
    } else {
        lemma_shortcut_failure_ends_install(request, path, cause, later.drop_last());
        assert((failure + later).drop_last() =~= failure + later.drop_last());
        assert(none + none =~= none);
    }
}

/// When the installed executable is absent there is no shortcut to create,
/// so no attempt can fail: registration is answered with success, and the
/// install goes on to record the version.
pub proof fn lemma_absent_executable_is_no_failure(
    request: InstallRequestView,
    user_profile: Seq<char>,
    app_data: Seq<char>,
    separator: Separator,
)
    ensures
        shortcut_plan(request.install_path, false, user_profile, app_data, separator).len() == 0,
        registration_answer(first_failure(Seq::<ShortcutAttempt>::empty()))
            == InstallEventView::ShortcutsRegistered,
        next(
            InstallStateView::RegisteringShortcuts { request },
            registration_answer(first_failure(Seq::<ShortcutAttempt>::empty())),
        ).0 == (InstallStateView::RecordingVersion { request }),
{
}

/// An install whose every step succeeds: the answers in the order the work is
/// asked for.
pub open spec fn smooth_answers() -> Seq<InstallEventView> {
    seq![
        InstallEventView::DirectoryProvisioned,
        InstallEventView::Extracted,
        InstallEventView::ShortcutsRegistered,
        InstallEventView::VersionRecorded,
    ]
}

/// When a payload is found and every step succeeds, the install succeeds.
/// Shortcut registration that had nothing to do, because the executable is
/// absent, counts as success like any other, and a failure to record the
/// version does not keep the install from succeeding either.
pub proof fn lemma_smooth_install_succeeds(
    install_path: Seq<char>,
    seven_zip: Option<PayloadProbeView>,
    zip: Option<PayloadProbeView>,
    cause: Seq<char>,
)
    requires
        chosen_payload(seven_zip, zip) is Some,
    ensures
        install_trace(install_path, seven_zip, zip, smooth_answers()).0 is Succeeded,
        install_trace(
            install_path,
            seven_zip,
            zip,
            smooth_answers().update(3, InstallEventView::VersionRecordFailed { cause }),
        ).0 is Succeeded,
{
    reveal_with_fuel(run, 5);
    let first = start(install_path, seven_zip, zip).0;
    let answers = smooth_answers();
    assert(answers.drop_last() =~= answers.take(3));
    assert(answers.take(3).drop_last() =~= answers.take(2));
    assert(answers.take(2).drop_last() =~= answers.take(1));
    assert(answers.take(1).drop_last() =~= answers.take(0));
    assert(run(first, answers.take(0)).0 == first);
    assert(run(first, answers.take(1)).0 is Extracting);
    assert(run(first, answers.take(2)).0 is RegisteringShortcuts);
    assert(run(first, answers.take(3)).0 is RecordingVersion);
    let other = answers.update(3, InstallEventView::VersionRecordFailed { cause });
    assert(other.drop_last() =~= answers.take(3));
}

} // verus!
