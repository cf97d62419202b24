//! The install directory offered when the user has chosen none.

use vstd::prelude::*;
use vstd::string::*;

verus! {

/// The root taken when the user's local application data directory is not
/// known.
pub const FALLBACK_ROOT: &'static str = "C:\\";

/// The default install directory under `root`.
pub open spec fn default_under(root: Seq<char>) -> Seq<char> {
    root + "\\Programs\\Mangyomi"@
}

/// The default install directory, given the user's local application data
/// directory if it is known.
pub open spec fn default_install_path_of(local_app_data: Option<Seq<char>>) -> Seq<char> {
    match local_app_data {
        Some(root) => default_under(root),
        None => default_under(FALLBACK_ROOT@),
    }
}

/// The default install directory: `Programs\Mangyomi` under the user's local
/// application data directory, or under `C:\` when that is not known.
pub fn default_install_path(local_app_data: Option<&str>) -> (path: String)
    ensures
        path@ == default_install_path_of(
            match local_app_data {
                Some(root) => Some(root@),
                None => None,
            },
        ),
{
    let mut path = match local_app_data {
        Some(root) => String::from_str(root),
        None => String::from_str(FALLBACK_ROOT),
    };
    path.append("\\Programs\\Mangyomi");
    path
}

} // verus!
