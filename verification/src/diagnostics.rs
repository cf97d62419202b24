//! The lines and the place of the diagnostics log.
//!
//! Every flag that is recognised and every major step is logged as one line
//! that begins with the time in seconds since the Unix epoch. Writing the log
//! is the caller's part, and a failure to write it is ignored.

use vstd::prelude::*;
use vstd::string::*;
use crate::text::{append_decimal, decimal, join_path, joined, Separator};
use crate::version::APPLICATION_DIRECTORY;

verus! {

/// The file name of the diagnostics log.
pub const LOG_FILE_NAME: &'static str = "installer-debug.log";

/// The log line for `message` at `timestamp`.
pub open spec fn log_line_of(timestamp: u64, message: Seq<char>) -> Seq<char> {
    "["@ + decimal(timestamp as nat) + "] "@ + message
}

/// The directory of the log under the application data directory `app_data`.
pub open spec fn log_directory_under(app_data: Seq<char>, separator: Separator) -> Seq<char> {
    joined(app_data, APPLICATION_DIRECTORY@, separator)
}

/// The log file under the application data directory `app_data`.
pub open spec fn log_file_under(app_data: Seq<char>, separator: Separator) -> Seq<char> {
    joined(log_directory_under(app_data, separator), LOG_FILE_NAME@, separator)
}

/// Builds the log line for `message` at `timestamp`, without the line end.
pub fn log_line(timestamp: u64, message: &str) -> (line: String)
    ensures
        line@ == log_line_of(timestamp, message@),
{
    let mut line = String::from_str("[");
    append_decimal(&mut line, timestamp);
    line.append("] ");
    line.append(message);
    line
}

/// The directory of the log, to be created if it is missing.
pub fn log_directory(app_data: &str, separator: Separator) -> (path: String)
    ensures
        path@ == log_directory_under(app_data@, separator),
{
    join_path(app_data, APPLICATION_DIRECTORY, separator)
}

/// The log file.
pub fn log_file_path(app_data: &str, separator: Separator) -> (path: String)
    ensures
        path@ == log_file_under(app_data@, separator),
{
    let directory = log_directory(app_data, separator);
    join_path(directory.as_str(), LOG_FILE_NAME, separator)
}

} // verus!
