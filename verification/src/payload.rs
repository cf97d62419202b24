//! Finding the payload to install.

use vstd::prelude::*;

verus! {

/// The archive format of a payload.
#[derive(Debug, Clone, Copy, PartialEq, Eq, Structural)]
pub enum ArchiveKind {
    SevenZip,
    Zip,
}

/// A 7z payload of this size or less is taken for a corrupt or empty stub.
pub const MIN_PAYLOAD_SIZE: u64 = 1000;

/// Where the 7z payload ships, relative to the installer's resources.
pub const SEVEN_ZIP_RESOURCE: &'static str = "resources/app.7z";

/// Where the zip payload ships, relative to the installer's resources.
pub const ZIP_RESOURCE: &'static str = "resources/app.zip";

/// What was found at the place of a payload.
#[derive(Debug, Clone, PartialEq, Eq)]
pub struct PayloadProbe {
    pub path: String,
    /// Whether a file exists there.
    pub exists: bool,
    /// Its size in bytes; 0 when the size cannot be read.
    pub size: u64,
}

/// The model of a `PayloadProbe`.
pub struct PayloadProbeView {
    pub path: Seq<char>,
    pub exists: bool,
    pub size: u64,
}

impl View for PayloadProbe {
    type V = PayloadProbeView;

    open spec fn view(&self) -> PayloadProbeView {
        PayloadProbeView { path: self.path@, exists: self.exists, size: self.size }
    }
}

/// One install to carry out: what to unpack, and where to.
#[derive(Debug, Clone, PartialEq, Eq)]
pub struct InstallRequest {
    pub install_path: String,
    pub payload_location: String,
    pub archive_kind: ArchiveKind,
}

/// The model of an `InstallRequest`.
pub struct InstallRequestView {
    pub install_path: Seq<char>,
    pub payload_location: Seq<char>,
    pub archive_kind: ArchiveKind,
}

impl View for InstallRequest {
    type V = InstallRequestView;

    open spec fn view(&self) -> InstallRequestView {
        InstallRequestView {
            install_path: self.install_path@,
            payload_location: self.payload_location@,
            archive_kind: self.archive_kind,
        }
    }
}

impl InstallRequest {
    /// A copy of the request.
    pub fn duplicate(&self) -> (copy: InstallRequest)
        ensures
            copy@ == self@,
    {
        InstallRequest {
            install_path: self.install_path.clone(),
            payload_location: self.payload_location.clone(),
            archive_kind: self.archive_kind,
        }
    }
}

/// The 7z payload is taken: it exists and is larger than the threshold.
pub open spec fn is_plausible(probe: PayloadProbeView) -> bool {
    probe.exists && probe.size > MIN_PAYLOAD_SIZE
}

/// Both payloads are missing: at neither place, resolved or not, is there a
/// file.
pub open spec fn both_missing(
    seven_zip: Option<PayloadProbeView>,
    zip: Option<PayloadProbeView>,
) -> bool {
    &&& seven_zip matches Some(probe) ==> !probe.exists
    &&& zip matches Some(probe) ==> !probe.exists
}

/// The payload chosen among what was found: the 7z payload if it is
/// plausible, else the zip payload if it exists, else none.
pub open spec fn chosen_payload(
    seven_zip: Option<PayloadProbeView>,
    zip: Option<PayloadProbeView>,
) -> Option<(Seq<char>, ArchiveKind)> {
    match seven_zip {
        Some(probe) if is_plausible(probe) => Some((probe.path, ArchiveKind::SevenZip)),
        _ => match zip {
            Some(probe) if probe.exists => Some((probe.path, ArchiveKind::Zip)),
            _ => None,
        },
    }
}

/// When both payloads are missing none is chosen.
pub proof fn lemma_missing_payloads_give_none(
    seven_zip: Option<PayloadProbeView>,
    zip: Option<PayloadProbeView>,
)
    requires
        both_missing(seven_zip, zip),
    ensures
        chosen_payload(seven_zip, zip) is None,
{
}

/// The model of an optional probe.
pub open spec fn probe_view(probe: Option<PayloadProbe>) -> Option<PayloadProbeView> {
    match probe {
        Some(p) => Some(p@),
        None => None,
    }
}

/// The model of an optional string.
pub open spec fn text_view(text: Option<String>) -> Option<Seq<char>> {
    match text {
        Some(t) => Some(t@),
        None => None,
    }
}

/// Chooses the payload: the 7z payload first, the zip payload as fallback.
/// Each is given as what was found at its place, or `None` when the place did
/// not resolve.
pub fn select_payload(seven_zip: Option<PayloadProbe>, zip: Option<PayloadProbe>) -> (chosen:
    Option<(String, ArchiveKind)>)
    ensures
        match chosen {
            Some((path, kind)) => chosen_payload(probe_view(seven_zip), probe_view(zip)) == Some(
                (path@, kind),
            ),
            None => chosen_payload(probe_view(seven_zip), probe_view(zip)) is None,
        },
{
    if let Some(probe) = seven_zip {
        if probe.exists && probe.size > MIN_PAYLOAD_SIZE {
            return Some((probe.path, ArchiveKind::SevenZip));
        }
    }
    if let Some(probe) = zip {
        if probe.exists {
            return Some((probe.path, ArchiveKind::Zip));
        }
    }
    None
}

} // verus!
