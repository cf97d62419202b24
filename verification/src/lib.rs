//! Decision logic of a desktop application installer.
//!
//! The crate decides and the caller performs: every function here maps plain
//! values (arguments, probe results, archive bytes, outcomes of file-system
//! work) to plain values (plans, actions, errors). Nothing in it touches the
//! file system, the environment or a process.
//!
//! - `arguments`: the command line, and the mode of the run.
//! - `orchestrator`: the interactive install as a state machine.
//! - `silent`: the silent install as a state machine.
//! - `payload`: the choice between the 7z and the zip payload.
//! - `archive`, `entry_path`: the plan for unpacking a zip payload, and the
//!   proof that it stays inside the destination.
//! - `shortcuts`: the desktop and start-menu shortcuts.
//! - `version`: the installed version and the update cache directory.
//! - `progress`, `error`: what the front end is told.
//! - `diagnostics`, `defaults`, `text`: log lines, the default install
//!   directory, paths.

pub mod archive;
pub mod arguments;
pub mod defaults;
pub mod diagnostics;
pub mod entry_path;
pub mod error;
pub mod orchestrator;
pub mod payload;
pub mod progress;
pub mod shortcuts;
pub mod silent;
pub mod text;
pub mod version;
