//! Progress notifications of one install.

use vstd::prelude::*;
use vstd::string::*;

verus! {

/// The name of the event that carries a `ProgressEvent` to the front end.
pub const PROGRESS_EVENT_NAME: &'static str = "install-progress";

/// The points of an install at which progress is reported, in their order.
#[derive(Debug, Clone, Copy, PartialEq, Eq, Structural)]
pub enum Stage {
    Extracting,
    CreatingShortcuts,
    SettingUpUpdates,
    Done,
}

/// What the front end receives for a stage.
#[derive(Debug, Clone, PartialEq, Eq)]
pub struct ProgressEvent {
    pub status: String,
    pub percent: u32,
}

/// The model of a `ProgressEvent`.
pub struct ProgressEventView {
    pub status: Seq<char>,
    pub percent: u32,
}

impl View for ProgressEvent {
    type V = ProgressEventView;

    open spec fn view(&self) -> ProgressEventView {
        ProgressEventView { status: self.status@, percent: self.percent }
    }
}

impl Stage {
    /// The percentage reported at the stage.
    pub open spec fn percent_of(self) -> u32 {
        match self {
            Stage::Extracting => 10,
            Stage::CreatingShortcuts => 80,
            Stage::SettingUpUpdates => 90,
            Stage::Done => 100,
        }
    }

    /// The status text reported at the stage.
    pub open spec fn status_of(self) -> Seq<char> {
        match self {
            Stage::Extracting => "Extracting files..."@,
            Stage::CreatingShortcuts => "Creating shortcuts..."@,
            Stage::SettingUpUpdates => "Setting up updates..."@,
            Stage::Done => "Done!"@,
        }
    }

    /// The event reported at the stage.
    pub open spec fn event_of(self) -> ProgressEventView {
        ProgressEventView { status: self.status_of(), percent: self.percent_of() }
    }

    /// The percentage reported at the stage.
    pub fn percent(self) -> (percent: u32)
        ensures
            percent == self.percent_of(),
            percent <= 100,
    {
        match self {
            Stage::Extracting => 10,
            Stage::CreatingShortcuts => 80,
            Stage::SettingUpUpdates => 90,
            Stage::Done => 100,
        }
    }

    /// The status text reported at the stage.
    pub fn status(self) -> (status: String)
        ensures
            status@ == self.status_of(),
    {
        match self {
            Stage::Extracting => String::from_str("Extracting files..."),
            Stage::CreatingShortcuts => String::from_str("Creating shortcuts..."),
            Stage::SettingUpUpdates => String::from_str("Setting up updates..."),
            Stage::Done => String::from_str("Done!"),
        }
    }

    /// The event reported at the stage.
    pub fn event(self) -> (event: ProgressEvent)
        ensures
            event@ == self.event_of(),
    {
        ProgressEvent { status: self.status(), percent: self.percent() }
    }
}

/// The stages of an install that succeeds, in the order they are reported.
pub open spec fn full_progress() -> Seq<Stage> {
    seq![Stage::Extracting, Stage::CreatingShortcuts, Stage::SettingUpUpdates, Stage::Done]
}

/// `stages` are the first stages of a complete install.
pub open spec fn is_progress_prefix(stages: Seq<Stage>) -> bool {
    stages.len() <= 4 && stages == full_progress().take(stages.len() as int)
}

/// The percentages of a complete install rise strictly from stage to stage.
pub proof fn lemma_percent_rises()
    ensures
        forall|i: int, j: int|
            0 <= i < j < 4 ==> (#[trigger] full_progress()[i]).percent_of() < (
            #[trigger] full_progress()[j]).percent_of(),
        full_progress().map_values(|stage: Stage| stage.percent_of()) == seq![10u32, 80, 90, 100],
{
    assert(full_progress().map_values(|stage: Stage| stage.percent_of()) =~= seq![
        10u32,
        80,
        90,
        100,
    ]);
}

} // verus!
