//! Why an install failed, and the message shown for it.

use vstd::prelude::*;
use vstd::string::*;
use crate::payload::ArchiveKind;
use crate::text::{quoted, quoted_text};

verus! {

/// A failure that ends an install.
#[derive(Debug, Clone, PartialEq, Eq)]
pub enum InstallError {
    /// Neither payload resolved.
    PayloadNotFound,
    /// The install directory at `path` could not be created.
    IoError { path: String, cause: String },
    /// The payload at `archive` could not be unpacked.
    ExtractError { kind: ArchiveKind, archive: String, cause: String },
    /// The shortcut at `path` could not be created.
    ShortcutError { path: String, cause: String },
}

/// The model of an `InstallError`.
pub enum InstallErrorView {
    PayloadNotFound,
    IoError { path: Seq<char>, cause: Seq<char> },
    ExtractError { kind: ArchiveKind, archive: Seq<char>, cause: Seq<char> },
    ShortcutError { path: Seq<char>, cause: Seq<char> },
}

impl View for InstallError {
    type V = InstallErrorView;

    open spec fn view(&self) -> InstallErrorView {
        match *self {
            InstallError::PayloadNotFound => InstallErrorView::PayloadNotFound,
            InstallError::IoError { path, cause } => InstallErrorView::IoError {
                path: path@,
                cause: cause@,
            },
            InstallError::ExtractError { kind, archive, cause } => InstallErrorView::ExtractError {
                kind,
                archive: archive@,
                cause: cause@,
            },
            InstallError::ShortcutError { path, cause } => InstallErrorView::ShortcutError {
                path: path@,
                cause: cause@,
            },
        }
    }
}

/// `lead`, the quoted `path`, a colon and `cause`.
pub open spec fn described(lead: Seq<char>, path: Seq<char>, cause: Seq<char>) -> Seq<char> {
    lead + quoted_text(path) + ": "@ + cause
}

impl InstallErrorView {
    /// The message shown for the error: what failed, the path it failed on in
    /// quotes, and the underlying error text.
    pub open spec fn message(self) -> Seq<char> {
        match self {
            InstallErrorView::PayloadNotFound => "Installer payload not found (app.7z or app.zip)"@,
            InstallErrorView::IoError { path, cause } => described(
                "Failed to create directory "@,
                path,
                cause,
            ),
            InstallErrorView::ExtractError { kind, archive, cause } => match kind {
                ArchiveKind::SevenZip => described("7z extraction failed for "@, archive, cause),
                ArchiveKind::Zip => described("Zip extraction failed for "@, archive, cause),
            },
            InstallErrorView::ShortcutError { path, cause } => described(
                "Shortcut creation failed for "@,
                path,
                cause,
            ),
        }
    }
}

/// Builds `lead`, the quoted `path`, a colon and `cause`.
fn describe(lead: &str, path: &str, cause: &str) -> (text: String)
    ensures
        text@ == described(lead@, path@, cause@),
{
    let mut text = String::from_str(lead);
    text.append(quoted(path).as_str());
    text.append(": ");
    text.append(cause);
    text
}

impl InstallError {
    /// The message shown for the error.
    pub fn message(&self) -> (text: String)
        ensures
            text@ == self@.message(),
    {
        match self {
            InstallError::PayloadNotFound => String::from_str(
                "Installer payload not found (app.7z or app.zip)",
            ),
            InstallError::IoError { path, cause } => describe(
                "Failed to create directory ",
                path.as_str(),
                cause.as_str(),
            ),
            InstallError::ExtractError { kind, archive, cause } => match kind {
                ArchiveKind::SevenZip => describe(
                    "7z extraction failed for ",
                    archive.as_str(),
                    cause.as_str(),
                ),
                ArchiveKind::Zip => describe(
                    "Zip extraction failed for ",
                    archive.as_str(),
                    cause.as_str(),
                ),
            },
            InstallError::ShortcutError { path, cause } => describe(
                "Shortcut creation failed for ",
                path.as_str(),
                cause.as_str(),
            ),
        }
    }
}

} // verus!
