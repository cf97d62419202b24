//! The installed version and the place kept for update bookkeeping.
//!
//! The installed tree carries its version in the text file `version.txt`.
//! Recording it means no more than making sure that the cache directory under
//! the user's application data exists and reading the marker; nothing is
//! cached. A failure here never fails an install.

use vstd::prelude::*;
use vstd::string::*;
use vstd::std_specs::iter::IteratorSpec;
use crate::text::{join_path, joined, Separator};

verus! {

/// The file in the installed tree that holds the version.
pub const VERSION_MARKER: &'static str = "version.txt";

/// The version that stands for a marker that is absent or cannot be read.
pub const UNKNOWN_VERSION: &'static str = "unknown";

/// The application's directory under the user's application data.
pub const APPLICATION_DIRECTORY: &'static str = "mangyomi";

/// The cache directory under the application's directory.
pub const CACHE_DIRECTORY: &'static str = "update-cache";

/// The installed version.
#[derive(Debug, Clone, PartialEq, Eq)]
pub struct VersionRecord {
    pub version: String,
}

/// White space as Unicode defines it (the property `White_Space`).
pub open spec fn is_white_space(c: char) -> bool {
    let code = c as u32;
    ||| 0x09 <= code <= 0x0D
    ||| code == 0x20
    ||| code == 0x85
    ||| code == 0xA0
    ||| code == 0x1680
    ||| 0x2000 <= code <= 0x200A
    ||| code == 0x2028
    ||| code == 0x2029
    ||| code == 0x202F
    ||| code == 0x205F
    ||| code == 0x3000
}

/// `text` without the white space it begins with.
pub open spec fn without_leading(text: Seq<char>) -> Seq<char>
    decreases text.len(),
{
    if text.len() > 0 && is_white_space(text[0]) {
        without_leading(text.drop_first())
    } else {
        text
    }
}

/// `text` without the white space it ends with.
pub open spec fn without_trailing(text: Seq<char>) -> Seq<char>
    decreases text.len(),
{
    if text.len() > 0 && is_white_space(text.last()) {
        without_trailing(text.drop_last())
    } else {
        text
    }
}

/// `text` without white space at either end.
pub open spec fn trimmed(text: Seq<char>) -> Seq<char> {
    without_trailing(without_leading(text))
}

/// The version that a marker with these contents gives; `None` stands for a
/// marker that is absent or cannot be read.
pub open spec fn version_of(marker: Option<Seq<char>>) -> Seq<char> {
    match marker {
        Some(contents) => trimmed(contents),
        None => UNKNOWN_VERSION@,
    }
}

/// The place of the version marker under `install_path`.
pub open spec fn marker_under(install_path: Seq<char>, separator: Separator) -> Seq<char> {
    joined(install_path, VERSION_MARKER@, separator)
}

/// The cache directory under the application data directory `app_data`.
pub open spec fn cache_under(app_data: Seq<char>, separator: Separator) -> Seq<char> {
    joined(joined(app_data, APPLICATION_DIRECTORY@, separator), CACHE_DIRECTORY@, separator)
}

/// Whether `c` is white space.
pub fn white_space(c: char) -> (white: bool)
    ensures
        white == is_white_space(c),
{
    let code: u32 = c as u32;
    (0x09 <= code && code <= 0x0D) || code == 0x20 || code == 0x85 || code == 0xA0 || code
        == 0x1680 || (0x2000 <= code && code <= 0x200A) || code == 0x2028 || code == 0x2029 || code
        == 0x202F || code == 0x205F || code == 0x3000
}

proof fn lemma_leading(text: Seq<char>, first: int)
    requires
        0 <= first <= text.len(),
        forall|j: int| 0 <= j < first ==> is_white_space(#[trigger] text[j]),
        first == text.len() || !is_white_space(text[first]),
    ensures
        without_leading(text) == text.skip(first),
    decreases first,
{
    if first == 0 {
        assert(text.skip(0) =~= text);
    } else {
        let rest = text.drop_first();
        assert(is_white_space(text[0]));
        assert forall|j: int| 0 <= j < first - 1 implies is_white_space(#[trigger] rest[j]) by {
            assert(rest[j] == text[j + 1]);
        }
        lemma_leading(rest, first - 1);
        assert(rest.skip(first - 1) =~= text.skip(first));
    }
}

proof fn lemma_trailing(text: Seq<char>, end: int)
    requires
        0 <= end <= text.len(),
        forall|j: int| end <= j < text.len() ==> is_white_space(#[trigger] text[j]),
        end == 0 || !is_white_space(text[end - 1]),
    ensures
        without_trailing(text) == text.take(end),
    decreases text.len() - end,
{
    if end == text.len() {
        assert(text.take(end) =~= text);
    } else {
        let rest = text.drop_last();
        assert(is_white_space(text[text.len() - 1]));
        assert forall|j: int| end <= j < rest.len() implies is_white_space(#[trigger] rest[j]) by {
            assert(rest[j] == text[j]);
        }
        lemma_trailing(rest, end);
        assert(rest.take(end) =~= text.take(end));
    }
}

/// Removes the white space at both ends of `text`. The text is read once.
pub fn trim(text: &str) -> (result: String)
    ensures
        result@ == trimmed(text@),
{
    let n: usize = text.unicode_len();
    let mut first: usize = 0;
    let mut end: usize = 0;
    let mut i: usize = 0;
    let mut chars = text.chars();
    proof {
        axiom_spec_iter(text);
        assert(text@.skip(0) =~= text@);
    }
    loop
        invariant
            i <= n == text@.len(),
            chars.remaining() == text@.skip(i as int),
            end <= i,
            end == 0 ==> first == 0 && forall|j: int| 0 <= j < i ==> is_white_space(#[trigger] text@[j]),
            end > 0 ==> {
                &&& first < end
                &&& !is_white_space(text@[first as int])
                &&& !is_white_space(text@[end - 1])
                &&& forall|j: int| 0 <= j < first ==> is_white_space(#[trigger] text@[j])
                &&& forall|j: int| end <= j < i ==> is_white_space(#[trigger] text@[j])
            },
        ensures
            i == n,
        decreases n - i,
    {
        let ghost before = chars;
        let next = chars.next();
        proof {
            next_postcondition(&before, &chars, next);
        }
        let c = match next {
            None => {
                break ;
            },
            Some(c) => c,
        };
        proof {
            assert(c == text@[i as int]);
            assert(text@.skip(i as int).drop_first() =~= text@.skip(i + 1));
        }
        if !white_space(c) {
            if end == 0 {
                first = i;
            }
            end = i + 1;
        }
        i += 1;
    }
    proof {
        if end == 0 {
            lemma_leading(text@, n as int);
            assert(text@.skip(n as int) =~= Seq::<char>::empty());
            assert(text@.subrange(0, 0) =~= Seq::<char>::empty());
        } else {
            lemma_leading(text@, first as int);
            let rest = text@.skip(first as int);
            assert forall|j: int| end - first <= j < rest.len() implies is_white_space(
                #[trigger] rest[j],
            ) by {
                assert(rest[j] == text@[first + j]);
            }
            assert(rest[end - first - 1] == text@[end - 1]);
            lemma_trailing(rest, end - first);
            assert(rest.take(end - first) =~= text@.subrange(first as int, end as int));
        }
    }
    String::from_str(text.substring_char(first, end))
}

/// The version that the marker gives. `marker` holds the contents of the
/// marker file, or `None` when the file is absent or cannot be read.
pub fn read_version(marker: Option<&str>) -> (record: VersionRecord)
    ensures
        record.version@ == version_of(
            match marker {
                Some(contents) => Some(contents@),
                None => None,
            },
        ),
{
    match marker {
        Some(contents) => VersionRecord { version: trim(contents) },
        None => VersionRecord { version: String::from_str(UNKNOWN_VERSION) },
    }
}

/// The place of the version marker under `install_path`.
pub fn version_marker_path(install_path: &str, separator: Separator) -> (path: String)
    ensures
        path@ == marker_under(install_path@, separator),
{
    join_path(install_path, VERSION_MARKER, separator)
}

/// Why the version could not be recorded. It is logged and goes no further.
#[derive(Debug, Clone, PartialEq, Eq)]
pub enum CacheError {
    /// The user's application data directory is not known.
    AppDataMissing,
    /// The cache directory at `path` could not be created.
    DirectoryFailed { path: String, cause: String },
}

impl CacheError {
    /// The text logged for the error.
    pub open spec fn message_of(self) -> Seq<char> {
        match self {
            CacheError::AppDataMissing => "APPDATA not found"@,
            CacheError::DirectoryFailed { cause, .. } => cause@,
        }
    }

    /// The text logged for the error.
    pub fn message(&self) -> (text: String)
        ensures
            text@ == self.message_of(),
    {
        match self {
            CacheError::AppDataMissing => String::from_str("APPDATA not found"),
            CacheError::DirectoryFailed { cause, .. } => cause.clone(),
        }
    }
}

/// The cache directory to make sure of, given the user's application data
/// directory if it is known.
pub fn cache_directory(app_data: Option<&str>, separator: Separator) -> (directory: Result<
    String,
    CacheError,
>)
    ensures
        match app_data {
            Some(base) => directory matches Ok(path) && path@ == cache_under(base@, separator),
            None => directory == Err::<String, CacheError>(CacheError::AppDataMissing),
        },
{
    match app_data {
        Some(base) => {
            let application = join_path(base, APPLICATION_DIRECTORY, separator);
            Ok(join_path(application.as_str(), CACHE_DIRECTORY, separator))
        },
        None => Err(CacheError::AppDataMissing),
    }
}

} // verus!
