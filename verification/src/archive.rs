//! Planning the extraction of a zip payload.
//!
//! The archive is read from bytes held in memory. Each entry becomes one step
//! for the caller to perform: a directory to create or a file to write, always
//! under the destination (see `entry_path`). The contents of an entry are read
//! only when it is a file whose name was accepted. The first entry that cannot
//! be read or whose name is refused ends the plan with a failure. Targets are
//! written with the separator of the host, which the caller names.

use vstd::prelude::*;
use vstd::string::*;
use crate::entry_path::{
    all_plain, entry_components, host_components, is_plain, lemma_accepted_name_is_plain,
    lemma_host_reads_under, resolve_entry_name, texts, under,
};
use crate::text::{join_path, joined, quoted, quoted_text, Separator};

verus! {

/// `zip::ZipArchive`, opaque to the verifier.
#[verifier::external_type_specification]
#[verifier::external_body]
#[verifier::reject_recursive_types(R)]
pub struct ExZipArchive<R>(zip::ZipArchive<R>);

/// `std::io::Cursor`, opaque to the verifier.
#[verifier::external_type_specification]
#[verifier::external_body]
#[verifier::reject_recursive_types(T)]
pub struct ExCursor<T>(std::io::Cursor<T>);

/// The headers that an opened archive holds: for each entry, as the archive
/// indexes them (one entry for each name), either its name and its directory
/// flag, or the text of the error that opening the entry gives.
pub uninterp spec fn archive_headers(archive: zip::ZipArchive<std::io::Cursor<Vec<u8>>>) -> Seq<
    Result<(Seq<char>, bool), Seq<char>>,
>;

/// The contents that an opened archive holds: for each entry, in the same
/// order, either its decompressed and checked contents, or the text of the
/// error that opening or reading the entry gives.
pub uninterp spec fn archive_contents(archive: zip::ZipArchive<std::io::Cursor<Vec<u8>>>) -> Seq<
    Result<Seq<u8>, Seq<char>>,
>;

/// What `zip::ZipArchive::new` makes of `bytes`: the headers and the contents
/// of the archive's entries, or the text of the error it returns.
pub uninterp spec fn zip_listing(bytes: Seq<u8>) -> Result<
    (Seq<Result<(Seq<char>, bool), Seq<char>>>, Seq<Result<Seq<u8>, Seq<char>>>),
    Seq<char>,
>;

/// One entry of an archive as plain values.
#[derive(Debug, Clone, PartialEq, Eq)]
pub struct ArchiveEntry {
    /// The name as the archive stores it.
    pub name: String,
    /// Whether the archive marks the entry as a directory.
    pub is_dir: bool,
    /// The decompressed contents; empty for a directory.
    pub contents: Vec<u8>,
}

/// Calls `zip::ZipArchive::new` on a `std::io::Cursor` over `bytes`.
/// Trusted: whether the archive opens, with which entries or with which error
/// text, depends on the bytes alone.
#[verifier::external_body]
fn open_archive(bytes: Vec<u8>) -> (opened: Result<
    zip::ZipArchive<std::io::Cursor<Vec<u8>>>,
    String,
>)
    ensures
        match opened {
            Ok(archive) => zip_listing(bytes@) == Ok::<
                (Seq<Result<(Seq<char>, bool), Seq<char>>>, Seq<Result<Seq<u8>, Seq<char>>>),
                Seq<char>,
            >((archive_headers(archive), archive_contents(archive))),
            Err(cause) => zip_listing(bytes@) == Err::<
                (Seq<Result<(Seq<char>, bool), Seq<char>>>, Seq<Result<Seq<u8>, Seq<char>>>),
                Seq<char>,
            >(cause@),
        },
{
    zip::ZipArchive::new(std::io::Cursor::new(bytes)).map_err(|e| e.to_string())
}

/// Calls `zip::ZipArchive::len`. Trusted: it is the number of entries, and so
/// of headers and of contents.
#[verifier::external_body]
fn archive_len(archive: &zip::ZipArchive<std::io::Cursor<Vec<u8>>>) -> (n: usize)
    ensures
        n == archive_headers(*archive).len(),
        n == archive_contents(*archive).len(),
{
    archive.len()
}

/// Calls `zip::ZipArchive::by_index` and takes `name` and `is_dir` of the
/// entry it returns; the contents are not read. Trusted: the archive holds the
/// same entries afterwards, and for an index below their number the result is
/// that entry's header.
#[verifier::external_body]
fn entry_header(archive: &mut zip::ZipArchive<std::io::Cursor<Vec<u8>>>, index: usize) -> (header:
    Result<(String, bool), String>)
    ensures
        archive_headers(*final(archive)) == archive_headers(*old(archive)),
        archive_contents(*final(archive)) == archive_contents(*old(archive)),
        index < archive_headers(*old(archive)).len() ==> match header {
            Ok((name, is_dir)) => archive_headers(*old(archive))[index as int] == Ok::<
                (Seq<char>, bool),
                Seq<char>,
            >((name@, is_dir)),
            Err(cause) => archive_headers(*old(archive))[index as int] == Err::<
                (Seq<char>, bool),
                Seq<char>,
            >(cause@),
        },
{
    let file = archive.by_index(index).map_err(|e| e.to_string())?;
    let name = file.name().map_err(|e| e.to_string())?.into_owned();
    Ok((name, file.is_dir()))
}

/// Calls `zip::ZipArchive::by_index` and reads the entry it returns to its end
/// through `std::io::Read::read_to_end`. Trusted: the archive holds the same
/// entries afterwards, and for an index below their number the result is that
/// entry's contents.
#[verifier::external_body]
fn entry_contents(archive: &mut zip::ZipArchive<std::io::Cursor<Vec<u8>>>, index: usize) -> (contents:
    Result<Vec<u8>, String>)
    ensures
        archive_headers(*final(archive)) == archive_headers(*old(archive)),
        archive_contents(*final(archive)) == archive_contents(*old(archive)),
        index < archive_contents(*old(archive)).len() ==> match contents {
            Ok(bytes) => archive_contents(*old(archive))[index as int] == Ok::<
                Seq<u8>,
                Seq<char>,
            >(bytes@),
            Err(cause) => archive_contents(*old(archive))[index as int] == Err::<
                Seq<u8>,
                Seq<char>,
            >(cause@),
        },
{
    let mut file = archive.by_index(index).map_err(|e| e.to_string())?;
    let mut bytes = Vec::new();
    std::io::Read::read_to_end(&mut file, &mut bytes).map_err(|e| e.to_string())?;
    Ok(bytes)
}

/// One thing to do on the file system, in the order the plan lists it.
#[derive(Debug, Clone, PartialEq, Eq)]
pub enum ExtractStep {
    /// Create the directory `path` and every missing parent of it.
    CreateDirectory { path: String },
    /// Create `parent` with its missing parents if it does not exist, then
    /// write `contents`, byte for byte, to the file `path`.
    WriteFile { parent: String, path: String, contents: Vec<u8> },
}

/// The model of an `ExtractStep`.
pub enum ExtractStepView {
    CreateDirectory { path: Seq<char> },
    WriteFile { parent: Seq<char>, path: Seq<char>, contents: Seq<u8> },
}

impl View for ExtractStep {
    type V = ExtractStepView;

    open spec fn view(&self) -> ExtractStepView {
        match *self {
            ExtractStep::CreateDirectory { path } => ExtractStepView::CreateDirectory { path: path@ },
            ExtractStep::WriteFile { parent, path, contents } => ExtractStepView::WriteFile {
                parent: parent@,
                path: path@,
                contents: contents@,
            },
        }
    }
}

impl ExtractStepView {
    /// The path the step creates or writes.
    pub open spec fn target(self) -> Seq<char> {
        match self {
            ExtractStepView::CreateDirectory { path } => path,
            ExtractStepView::WriteFile { path, .. } => path,
        }
    }
}

/// Why no plan could be made.
#[derive(Debug, Clone, PartialEq, Eq)]
pub enum ExtractFailure {
    /// The bytes are not an archive that can be opened.
    Unreadable { cause: String },
    /// The entry at `index` cannot be read.
    EntryUnreadable { index: usize, cause: String },
    /// The entry name is absolute, holds NUL, holds `:` where `\` separates,
    /// or climbs above the destination.
    UnsafeName { name: String },
    /// The entry is a file and its name resolves to the destination itself.
    MissingFileName { name: String },
}

/// The model of an `ExtractFailure`.
pub enum ExtractFailureView {
    Unreadable { cause: Seq<char> },
    EntryUnreadable { index: int, cause: Seq<char> },
    UnsafeName { name: Seq<char> },
    MissingFileName { name: Seq<char> },
}

impl View for ExtractFailure {
    type V = ExtractFailureView;

    open spec fn view(&self) -> ExtractFailureView {
        match *self {
            ExtractFailure::Unreadable { cause } => ExtractFailureView::Unreadable { cause: cause@ },
            ExtractFailure::EntryUnreadable { index, cause } => ExtractFailureView::EntryUnreadable {
                index: index as int,
                cause: cause@,
            },
            ExtractFailure::UnsafeName { name } => ExtractFailureView::UnsafeName { name: name@ },
            ExtractFailure::MissingFileName { name } => ExtractFailureView::MissingFileName {
                name: name@,
            },
        }
    }
}

impl ExtractFailureView {
    /// The text shown for the failure.
    pub open spec fn message(self) -> Seq<char> {
        match self {
            ExtractFailureView::Unreadable { cause } => cause,
            ExtractFailureView::EntryUnreadable { cause, .. } => cause,
            ExtractFailureView::UnsafeName { name } => "entry name leaves the destination: "@
                + quoted_text(name),
            ExtractFailureView::MissingFileName { name } => "entry has no file name: "@
                + quoted_text(name),
        }
    }
}

impl ExtractFailure {
    /// The text shown for the failure: the underlying error text, or the
    /// refused name in quotes.
    pub fn message(&self) -> (text: String)
        ensures
            text@ == self@.message(),
    {
        match self {
            ExtractFailure::Unreadable { cause } => cause.clone(),
            ExtractFailure::EntryUnreadable { cause, .. } => cause.clone(),
            ExtractFailure::UnsafeName { name } => {
                let mut text = String::from_str("entry name leaves the destination: ");
                text.append(quoted(name.as_str()).as_str());
                text
            },
            ExtractFailure::MissingFileName { name } => {
                let mut text = String::from_str("entry has no file name: ");
                text.append(quoted(name.as_str()).as_str());
                text
            },
        }
    }
}

/// Where an entry goes.
#[derive(Debug, Clone, PartialEq, Eq)]
pub enum EntryTarget {
    /// The entry is the directory `path`.
    Directory { path: String },
    /// The entry is the file `path` in the directory `parent`.
    File { parent: String, path: String },
}

/// The model of an `EntryTarget`.
pub enum EntryTargetView {
    Directory { path: Seq<char> },
    File { parent: Seq<char>, path: Seq<char> },
}

impl View for EntryTarget {
    type V = EntryTargetView;

    open spec fn view(&self) -> EntryTargetView {
        match *self {
            EntryTarget::Directory { path } => EntryTargetView::Directory { path: path@ },
            EntryTarget::File { parent, path } => EntryTargetView::File {
                parent: parent@,
                path: path@,
            },
        }
    }
}

/// Whether an entry stands for a directory: the archive says so, or its name
/// ends with `/`.
pub open spec fn is_directory_entry(name: Seq<char>, is_dir: bool) -> bool {
    is_dir || (name.len() > 0 && name.last() == '/')
}

/// Where the entry called `name` goes under `destination`, or why it is
/// refused.
pub open spec fn entry_target(
    destination: Seq<char>,
    name: Seq<char>,
    is_dir: bool,
    separator: Separator,
) -> Result<EntryTargetView, ExtractFailureView> {
    match entry_components(name, separator) {
        None => Err(ExtractFailureView::UnsafeName { name }),
        Some(components) => if is_directory_entry(name, is_dir) {
            Ok(EntryTargetView::Directory { path: under(destination, components, separator) })
        } else if components.len() == 0 {
            Err(ExtractFailureView::MissingFileName { name })
        } else {
            Ok(
                EntryTargetView::File {
                    parent: under(destination, components.drop_last(), separator),
                    path: under(destination, components, separator),
                },
            )
        },
    }
}

/// The step that one entry asks for under `destination`, or why it is refused.
pub open spec fn entry_step(
    destination: Seq<char>,
    name: Seq<char>,
    is_dir: bool,
    contents: Seq<u8>,
    separator: Separator,
) -> Result<ExtractStepView, ExtractFailureView> {
    match entry_target(destination, name, is_dir, separator) {
        Err(failure) => Err(failure),
        Ok(EntryTargetView::Directory { path }) => Ok(ExtractStepView::CreateDirectory { path }),
        Ok(EntryTargetView::File { parent, path }) => Ok(
            ExtractStepView::WriteFile { parent, path, contents },
        ),
    }
}

/// The step that the entry at `index` asks for, or why there is none: its
/// header cannot be read, its name is refused, or it is a file whose contents
/// cannot be read. The contents of a directory entry play no part.
pub open spec fn step_at(
    destination: Seq<char>,
    headers: Seq<Result<(Seq<char>, bool), Seq<char>>>,
    contents: Seq<Result<Seq<u8>, Seq<char>>>,
    index: int,
    separator: Separator,
) -> Result<ExtractStepView, ExtractFailureView> {
    match headers[index] {
        Err(cause) => Err(ExtractFailureView::EntryUnreadable { index, cause }),
        Ok((name, is_dir)) => match entry_target(destination, name, is_dir, separator) {
            Err(failure) => Err(failure),
            Ok(EntryTargetView::Directory { path }) => Ok(
                ExtractStepView::CreateDirectory { path },
            ),
            Ok(EntryTargetView::File { parent, path }) => match contents[index] {
                Err(cause) => Err(ExtractFailureView::EntryUnreadable { index, cause }),
                Ok(bytes) => Ok(ExtractStepView::WriteFile { parent, path, contents: bytes }),
            },
        },
    }
}

/// The steps for the first `count` entries in their order, or the failure of
/// the first of them that cannot be read or is refused.
pub open spec fn entries_plan(
    destination: Seq<char>,
    headers: Seq<Result<(Seq<char>, bool), Seq<char>>>,
    contents: Seq<Result<Seq<u8>, Seq<char>>>,
    count: int,
    separator: Separator,
) -> Result<Seq<ExtractStepView>, ExtractFailureView>
    decreases count,
{
    if count <= 0 {
        Ok(Seq::<ExtractStepView>::empty())
    } else {
        match entries_plan(destination, headers, contents, count - 1, separator) {
            Err(failure) => Err(failure),
            Ok(steps) => match step_at(destination, headers, contents, count - 1, separator) {
                Err(failure) => Err(failure),
                Ok(step) => Ok(steps.push(step)),
            },
        }
    }
}

/// The plan for an archive given what opening it returned.
pub open spec fn zip_plan(
    destination: Seq<char>,
    listing: Result<
        (Seq<Result<(Seq<char>, bool), Seq<char>>>, Seq<Result<Seq<u8>, Seq<char>>>),
        Seq<char>,
    >,
    separator: Separator,
) -> Result<Seq<ExtractStepView>, ExtractFailureView> {
    match listing {
        Err(cause) => Err(ExtractFailureView::Unreadable { cause }),
        Ok((headers, contents)) => entries_plan(
            destination,
            headers,
            contents,
            headers.len() as int,
            separator,
        ),
    }
}

/// The models of a list of steps.
pub open spec fn step_views(steps: Seq<ExtractStep>) -> Seq<ExtractStepView> {
    steps.map_values(|step: ExtractStep| step@)
}

/// The model of a plan or of its failure.
pub open spec fn plan_view(plan: Result<Vec<ExtractStep>, ExtractFailure>) -> Result<
    Seq<ExtractStepView>,
    ExtractFailureView,
> {
    match plan {
        Ok(steps) => Ok(step_views(steps@)),
        Err(failure) => Err(failure@),
    }
}

/// `path` lies inside `destination` on a host with this separator: it is the
/// destination with plain components placed under it, each set off by the
/// host's separator, so no part of it is `..` or a root, none is a drive
/// where the host has drives, and none holds a separator of any host.
pub open spec fn lies_inside(destination: Seq<char>, path: Seq<char>, separator: Separator) -> bool {
    exists|components: Seq<Seq<char>>|
        #![trigger under(destination, components, separator)]
        all_plain(components, separator) && path == under(destination, components, separator)
}

/// `path` is, as the host reads it, a place below `destination`: its
/// components are those of the destination followed by plain components.
pub open spec fn reads_below(destination: Seq<char>, path: Seq<char>, separator: Separator) -> bool {
    exists|components: Seq<Seq<char>>|
        #![trigger all_plain(components, separator)]
        all_plain(components, separator) && host_components(path, separator) == host_components(
            destination,
            separator,
        ) + components
}

/// A path that lies inside the destination is, as the host reads it, a place
/// below the destination: no component of it leads up, to a root or to a
/// drive, whichever the host's separator is.
pub proof fn lemma_inside_reads_below(destination: Seq<char>, path: Seq<char>, separator: Separator)
    requires
        lies_inside(destination, path, separator),
    ensures
        reads_below(destination, path, separator),
{
    let components = choose|components: Seq<Seq<char>>|
        #![trigger under(destination, components, separator)]
        all_plain(components, separator) && path == under(destination, components, separator);
    lemma_host_reads_under(destination, components, separator);
    assert(all_plain(components, separator));
}

/// Every path of `target` lies inside `destination`.
pub open spec fn target_stays_inside(
    destination: Seq<char>,
    target: EntryTargetView,
    separator: Separator,
) -> bool {
    match target {
        EntryTargetView::Directory { path } => lies_inside(destination, path, separator),
        EntryTargetView::File { parent, path } => lies_inside(destination, parent, separator)
            && lies_inside(destination, path, separator),
    }
}

/// Every path of `step` lies inside `destination`.
pub open spec fn step_stays_inside(
    destination: Seq<char>,
    step: ExtractStepView,
    separator: Separator,
) -> bool {
    match step {
        ExtractStepView::CreateDirectory { path } => lies_inside(destination, path, separator),
        ExtractStepView::WriteFile { parent, path, .. } => lies_inside(
            destination,
            parent,
            separator,
        ) && lies_inside(destination, path, separator),
    }
}

/// Whatever an entry is called and whatever the host's separator is, the
/// target planned for it lies inside the destination.
pub proof fn lemma_target_stays_inside(
    destination: Seq<char>,
    name: Seq<char>,
    is_dir: bool,
    separator: Separator,
)
    ensures
        entry_target(destination, name, is_dir, separator) matches Ok(target)
            ==> target_stays_inside(destination, target, separator),
{
    lemma_accepted_name_is_plain(name, separator);
    if let Some(components) = entry_components(name, separator) {
        let path = under(destination, components, separator);
        assert(lies_inside(destination, path, separator));
        if !is_directory_entry(name, is_dir) && components.len() > 0 {
            let shorter = components.drop_last();
            assert(all_plain(shorter, separator)) by {
                assert forall|i: int| 0 <= i < shorter.len() implies is_plain(
                    #[trigger] shorter[i], separator,
                ) by {
                    assert(shorter[i] == components[i]);
                }
            }
            assert(lies_inside(destination, under(destination, shorter, separator), separator));
        }
    }
}

/// Whatever an entry is called, the step planned for it creates and writes
/// inside the destination only.
pub proof fn lemma_entry_stays_inside(
    destination: Seq<char>,
    name: Seq<char>,
    is_dir: bool,
    contents: Seq<u8>,
    separator: Separator,
)
    ensures
        entry_step(destination, name, is_dir, contents, separator) matches Ok(step)
            ==> step_stays_inside(destination, step, separator),
{
    lemma_target_stays_inside(destination, name, is_dir, separator);
}

/// Whatever the entries of an archive are, the step planned for any one of
/// them creates and writes inside the destination only.
pub proof fn lemma_step_stays_inside(
    destination: Seq<char>,
    headers: Seq<Result<(Seq<char>, bool), Seq<char>>>,
    contents: Seq<Result<Seq<u8>, Seq<char>>>,
    index: int,
    separator: Separator,
)
    ensures
        step_at(destination, headers, contents, index, separator) matches Ok(step)
            ==> step_stays_inside(destination, step, separator),
{
    if let Ok((name, is_dir)) = headers[index] {
        lemma_target_stays_inside(destination, name, is_dir, separator);
    }
}

/// Whatever the entries of an archive are, every step of a plan made for them
/// creates and writes inside the destination only.
pub proof fn lemma_plan_stays_inside(
    destination: Seq<char>,
    headers: Seq<Result<(Seq<char>, bool), Seq<char>>>,
    contents: Seq<Result<Seq<u8>, Seq<char>>>,
    count: int,
    separator: Separator,
)
    ensures
        entries_plan(destination, headers, contents, count, separator) matches Ok(steps)
            ==> forall|i: int|
            0 <= i < steps.len() ==> step_stays_inside(destination, #[trigger] steps[i], separator),
    decreases count,
{
    if count > 0 {
        lemma_plan_stays_inside(destination, headers, contents, count - 1, separator);
        lemma_step_stays_inside(destination, headers, contents, count - 1, separator);
    }
}

/// Whatever bytes are given as an archive and whatever the host's separator
/// is, a plan made from them creates and writes inside the destination only.
pub proof fn lemma_extraction_stays_inside(
    destination: Seq<char>,
    archive_bytes: Seq<u8>,
    separator: Separator,
)
    ensures
        zip_plan(destination, zip_listing(archive_bytes), separator) matches Ok(steps)
            ==> forall|i: int|
            0 <= i < steps.len() ==> step_stays_inside(destination, #[trigger] steps[i], separator),
{
    if let Ok((headers, contents)) = zip_listing(archive_bytes) {
        lemma_plan_stays_inside(destination, headers, contents, headers.len() as int, separator);
    }
}

/// The first `count` of `components` placed under `base`. The path is built
/// in one go: after the first component it ends with a plain component, so
/// that each further one takes a separator before it.
fn place_under(base: &str, components: &Vec<String>, count: usize, separator: Separator) -> (path:
    String)
    requires
        count <= components.len(),
        all_plain(texts(components@), separator),
    ensures
        path@ == under(base@, texts(components@).take(count as int), separator),
{
    let ghost parts = texts(components@);
    if count == 0 {
        assert(parts.take(0) =~= Seq::<Seq<char>>::empty());
        return String::from_str(base);
    }
    let mut path = join_path(base, components[0].as_str(), separator);
    let mut i: usize = 1;
    proof {
        assert(parts.take(1).drop_last() =~= Seq::<Seq<char>>::empty());
        assert(parts.take(1).last() == components@[0]@);
        assert(is_plain(parts[0], separator));
        assert(under(base@, parts.take(1).drop_last(), separator) == base@);
        assert(under(base@, parts.take(1), separator) == joined(base@, parts[0], separator));
    }
    while i < count
        invariant
            1 <= i <= count <= components.len(),
            parts == texts(components@),
            all_plain(parts, separator),
            path@ == under(base@, parts.take(i as int), separator),
            path@.len() > 0,
            !separator.ends_path(path@.last()),
        decreases count - i,
    {
        proof {
            assert(parts.take(i + 1).drop_last() =~= parts.take(i as int));
            assert(parts.take(i + 1).last() == components@[i as int]@);
            assert(is_plain(parts[i as int], separator));
        }
        let ghost before = path@;
        path.push(separator.as_char());
        path.append(components[i].as_str());
        assert(path@ =~= joined(before, components@[i as int]@, separator));
        i += 1;
    }
    path
}

/// Plans where the entry called `name` goes under `destination`.
pub fn plan_target(destination: &str, name: String, is_dir: bool, separator: Separator) -> (target:
    Result<EntryTarget, ExtractFailure>)
    ensures
        match target {
            Ok(planned) => entry_target(destination@, name@, is_dir, separator) == Ok::<
                EntryTargetView,
                ExtractFailureView,
            >(planned@),
            Err(failure) => entry_target(destination@, name@, is_dir, separator) == Err::<
                EntryTargetView,
                ExtractFailureView,
            >(failure@),
        },
{
    let components = match resolve_entry_name(name.as_str(), separator) {
        None => {
            return Err(ExtractFailure::UnsafeName { name });
        },
        Some(components) => components,
    };
    proof {
        lemma_accepted_name_is_plain(name@, separator);
    }
    let count: usize = components.len();
    let length: usize = name.as_str().unicode_len();
    let directory = is_dir || (length > 0 && name.as_str().get_char(length - 1) == '/');
    assert(texts(components@).take(count as int) =~= texts(components@));
    if directory {
        let path = place_under(destination, &components, count, separator);
        Ok(EntryTarget::Directory { path })
    } else if count == 0 {
        Err(ExtractFailure::MissingFileName { name })
    } else {
        assert(texts(components@).take(count - 1) =~= texts(components@).drop_last());
        let parent = place_under(destination, &components, count - 1, separator);
        let path = join_path(parent.as_str(), components[count - 1].as_str(), separator);
        Ok(EntryTarget::File { parent, path })
    }
}

/// Plans the step for one entry under `destination`.
pub fn plan_entry(destination: &str, entry: ArchiveEntry, separator: Separator) -> (step: Result<
    ExtractStep,
    ExtractFailure,
>)
    ensures
        match step {
            Ok(planned) => entry_step(
                destination@,
                entry.name@,
                entry.is_dir,
                entry.contents@,
                separator,
            ) == Ok::<ExtractStepView, ExtractFailureView>(planned@),
            Err(failure) => entry_step(
                destination@,
                entry.name@,
                entry.is_dir,
                entry.contents@,
                separator,
            ) == Err::<ExtractStepView, ExtractFailureView>(failure@),
        },
{
    let ArchiveEntry { name, is_dir, contents } = entry;
    match plan_target(destination, name, is_dir, separator) {
        Err(failure) => Err(failure),
        Ok(EntryTarget::Directory { path }) => Ok(ExtractStep::CreateDirectory { path }),
        Ok(EntryTarget::File { parent, path }) => Ok(
            ExtractStep::WriteFile { parent, path, contents },
        ),
    }
}

/// A failure among the first entries is the failure of the whole plan.
proof fn lemma_failure_stays(
    destination: Seq<char>,
    headers: Seq<Result<(Seq<char>, bool), Seq<char>>>,
    contents: Seq<Result<Seq<u8>, Seq<char>>>,
    k: int,
    count: int,
    separator: Separator,
)
    requires
        0 <= k <= count,
        entries_plan(destination, headers, contents, k, separator) is Err,
    ensures
        entries_plan(destination, headers, contents, count, separator) == entries_plan(
            destination,
            headers,
            contents,
            k,
            separator,
        ),
    decreases count - k,
{
    if k < count {
        lemma_failure_stays(destination, headers, contents, k + 1, count, separator);
    }
}

/// The model of an optional step or failure.
pub open spec fn outcome_view(step: Option<Result<ExtractStep, ExtractFailure>>) -> Option<
    Result<ExtractStepView, ExtractFailureView>,
> {
    match step {
        None => None,
        Some(Ok(planned)) => Some(Ok(planned@)),
        Some(Err(failure)) => Some(Err(failure@)),
    }
}

/// An opened zip payload that is planned entry by entry, so that at any time
/// only one entry's contents are held. After a failure the plan is at its
/// end.
pub struct ZipPlan {
    archive: zip::ZipArchive<std::io::Cursor<Vec<u8>>>,
    destination: String,
    separator: Separator,
    count: usize,
    next: usize,
}

impl ZipPlan {
    /// The headers of the archive's entries.
    pub closed spec fn headers(&self) -> Seq<Result<(Seq<char>, bool), Seq<char>>> {
        archive_headers(self.archive)
    }

    /// The contents of the archive's entries.
    pub closed spec fn contents(&self) -> Seq<Result<Seq<u8>, Seq<char>>> {
        archive_contents(self.archive)
    }

    /// The directory the archive is unpacked into.
    pub closed spec fn destination(&self) -> Seq<char> {
        self.destination@
    }

    /// The separator that targets are written with.
    pub closed spec fn separator(&self) -> Separator {
        self.separator
    }

    /// The index of the entry that is planned next.
    pub closed spec fn position(&self) -> int {
        self.next as int
    }

    /// The plan counts the entries of its archive and stands among them.
    pub closed spec fn well_formed(&self) -> bool {
        &&& self.count == self.headers().len()
        &&& self.count == self.contents().len()
        &&& self.next <= self.count
    }

    /// Opens the archive held in `archive_bytes` for unpacking into
    /// `destination` on a host with this separator.
    pub fn open(archive_bytes: Vec<u8>, destination: &str, separator: Separator) -> (opened: Result<
        ZipPlan,
        ExtractFailure,
    >)
        ensures
            match opened {
                Ok(plan) => {
                    &&& plan.well_formed()
                    &&& plan.position() == 0
                    &&& plan.destination() == destination@
                    &&& plan.separator() == separator
                    &&& plan.headers().len() == plan.contents().len()
                    &&& zip_listing(archive_bytes@) == Ok::<
                        (
                            Seq<Result<(Seq<char>, bool), Seq<char>>>,
                            Seq<Result<Seq<u8>, Seq<char>>>,
                        ),
                        Seq<char>,
                    >((plan.headers(), plan.contents()))
                },
                Err(failure) => failure@ is Unreadable && zip_listing(archive_bytes@) == Err::<
                    (Seq<Result<(Seq<char>, bool), Seq<char>>>, Seq<Result<Seq<u8>, Seq<char>>>),
                    Seq<char>,
                >(failure@->Unreadable_cause),
            },
    {
        match open_archive(archive_bytes) {
            Err(cause) => Err(ExtractFailure::Unreadable { cause }),
            Ok(archive) => {
                let count = archive_len(&archive);
                Ok(
                    ZipPlan {
                        archive,
                        destination: String::from_str(destination),
                        separator,
                        count,
                        next: 0,
                    },
                )
            },
        }
    }

    /// The number of entries that are still to be planned.
    pub fn remaining(&self) -> (left: usize)
        requires
            self.well_formed(),
        ensures
            left == self.headers().len() - self.position(),
    {
        self.count - self.next
    }

    /// Plans the next entry: its step, or the failure that ends the plan, or
    /// `None` when the plan is at its end.
    pub fn next_step(&mut self) -> (step: Option<Result<ExtractStep, ExtractFailure>>)
        requires
            old(self).well_formed(),
        ensures
            final(self).well_formed(),
            final(self).headers() == old(self).headers(),
            final(self).contents() == old(self).contents(),
            final(self).destination() == old(self).destination(),
            final(self).separator() == old(self).separator(),
            outcome_view(step) == (if old(self).position() < old(self).headers().len() {
                Some(
                    step_at(
                        old(self).destination(),
                        old(self).headers(),
                        old(self).contents(),
                        old(self).position(),
                        old(self).separator(),
                    ),
                )
            } else {
                None
            }),
            final(self).position() == (match step {
                None => old(self).position(),
                Some(Ok(_)) => old(self).position() + 1,
                Some(Err(_)) => old(self).headers().len() as int,
            }),
    {
        if self.next >= self.count {
            return None;
        }
        let index = self.next;
        let planned = match entry_header(&mut self.archive, index) {
            Err(cause) => Err(ExtractFailure::EntryUnreadable { index, cause }),
            Ok((name, is_dir)) => match plan_target(
                self.destination.as_str(),
                name,
                is_dir,
                self.separator,
            ) {
                Err(failure) => Err(failure),
                Ok(EntryTarget::Directory { path }) => Ok(ExtractStep::CreateDirectory { path }),
                Ok(EntryTarget::File { parent, path }) => match entry_contents(
                    &mut self.archive,
                    index,
                ) {
                    Err(cause) => Err(ExtractFailure::EntryUnreadable { index, cause }),
                    Ok(contents) => Ok(ExtractStep::WriteFile { parent, path, contents }),
                },
            },
        };
        match planned {
            Ok(step) => {
                self.next = index + 1;
                Some(Ok(step))
            },
            Err(failure) => {
                self.next = self.count;
                Some(Err(failure))
            },
        }
    }
}

/// Plans the extraction of the zip archive held in `archive_bytes` into
/// `destination`: one step per entry, in the archive's order. The whole plan
/// holds the contents of every file; `ZipPlan` plans entry by entry.
pub fn plan_zip_extraction(archive_bytes: Vec<u8>, destination: &str, separator: Separator) -> (plan:
    Result<Vec<ExtractStep>, ExtractFailure>)
    ensures
        plan_view(plan) == zip_plan(destination@, zip_listing(archive_bytes@), separator),
{
    let mut stepwise = match ZipPlan::open(archive_bytes, destination, separator) {
        Err(failure) => {
            return Err(failure);
        },
        Ok(stepwise) => stepwise,
    };
    let ghost headers = stepwise.headers();
    let ghost contents = stepwise.contents();
    let mut steps: Vec<ExtractStep> = Vec::new();
    proof {
        assert(step_views(steps@) =~= Seq::<ExtractStepView>::empty());
    }
    loop
        invariant
            stepwise.well_formed(),
            stepwise.headers() == headers,
            stepwise.contents() == contents,
            stepwise.destination() == destination@,
            stepwise.separator() == separator,
            0 <= stepwise.position() <= headers.len(),
            zip_listing(archive_bytes@) == Ok::<
                (Seq<Result<(Seq<char>, bool), Seq<char>>>, Seq<Result<Seq<u8>, Seq<char>>>),
                Seq<char>,
            >((headers, contents)),
            entries_plan(destination@, headers, contents, stepwise.position(), separator) == Ok::<
                Seq<ExtractStepView>,
                ExtractFailureView,
            >(step_views(steps@)),
        ensures
            stepwise.position() == headers.len(),
        decreases headers.len() - stepwise.position(),
    {
        let ghost at = stepwise.position();
        match stepwise.next_step() {
            None => {
                break ;
            },
            Some(Err(failure)) => {
                proof {
                    lemma_failure_stays(
                        destination@,
                        headers,
                        contents,
                        at + 1,
                        headers.len() as int,
                        separator,
                    );
                }
                return Err(failure);
            },
            Some(Ok(step)) => {
                let ghost before = steps@;
                steps.push(step);
                proof {
                    assert(step_views(steps@) =~= step_views(before).push(step@));
                }
            },
        }
    }
    Ok(steps)
}

} // verus!
