//! Unpacking an archive: reading its members with the `zip` crate and
//! deciding where each of them is written. Nothing is written here; the
//! result is the list of writes for the driver to perform.

use vstd::prelude::*;
use vstd::string::*;
use crate::failure::{DeployError, DeployErrorView, Failure};
use crate::enclosure::{
    is_enclosed, lemma_enclosed_means_below_root, resolved, root_parts, split, stays_below,
    stays_inside,
};
use crate::paths::{join, joined};

verus! {

/// `zip::ZipArchive`, an open archive. Nothing is known of what is in it
/// but what the functions below state.
#[verifier::external_type_specification]
#[verifier::external_body]
#[verifier::reject_recursive_types(R)]
pub struct ExZipArchive<R>(zip::ZipArchive<R>);

/// `zip::result::ZipError`, carried from the call that failed to the text
/// it displays as.
#[verifier::external_type_specification]
#[verifier::external_body]
pub struct ExZipError(zip::result::ZipError);

/// `std::io::Cursor`, through which `zip` reads bytes held in memory.
#[verifier::external_type_specification]
#[verifier::external_body]
#[verifier::reject_recursive_types(T)]
pub struct ExCursor<T>(std::io::Cursor<T>);

/// `std::io::Error`, carried from the read that failed to the text it
/// displays as.
#[verifier::external_type_specification]
#[verifier::external_body]
pub struct ExIoError(std::io::Error);

/// One member of an open archive, ready to be read: a `zip::read::ZipFile`
/// over an archive held in memory. `ZipFile` is declared over any
/// `std::io::Read`, a trait that Verus cannot be told of, so the reader is
/// held in a field that Verus does not look into.
#[verifier::external_body]
pub struct EntryReader<'a> {
    inner: zip::read::ZipFile<'a, std::io::Cursor<Vec<u8>>>,
}

/// The bytes that an archive was opened on.
pub uninterp spec fn archive_bytes(archive: zip::ZipArchive<std::io::Cursor<Vec<u8>>>) -> Seq<u8>;

/// The bytes of the archive that a member is read from.
pub uninterp spec fn reader_bytes(reader: EntryReader<'_>) -> Seq<u8>;

/// The index of a member in the archive that it is read from.
pub uninterp spec fn reader_index(reader: EntryReader<'_>) -> int;

/// Whether `zip` finds the directory of an archive in `bytes`.
pub uninterp spec fn zip_readable(bytes: Seq<u8>) -> bool;

/// The number of members in the directory of the archive `bytes`.
pub uninterp spec fn zip_entry_count(bytes: Seq<u8>) -> nat;

/// Whether `zip` can set up the reading of member `index` of the archive
/// `bytes`.
pub uninterp spec fn zip_entry_opens(bytes: Seq<u8>, index: int) -> bool;

/// The name of member `index` of the archive `bytes`, as its directory
/// gives it.
pub uninterp spec fn zip_entry_name(bytes: Seq<u8>, index: int) -> Seq<char>;

/// The content of member `index` of the archive `bytes`, or `None` where
/// reading it fails.
pub uninterp spec fn zip_entry_data(bytes: Seq<u8>, index: int) -> Option<Seq<u8>>;

/// Calls `zip::ZipArchive::new` on a cursor over `bytes`. Whether it
/// succeeds depends on the bytes alone; the archive handed back is one over
/// these bytes.
#[verifier::external_body]
fn open_archive(bytes: Vec<u8>) -> (opened: Result<
    zip::ZipArchive<std::io::Cursor<Vec<u8>>>,
    zip::result::ZipError,
>)
    ensures
        opened is Ok <==> zip_readable(bytes@),
        opened matches Ok(archive) ==> archive_bytes(archive) == bytes@,
{
    zip::ZipArchive::new(std::io::Cursor::new(bytes))
}

/// Calls `zip::ZipArchive::len`: the number of members that the archive's
/// directory lists.
#[verifier::external_body]
fn archive_len(archive: &zip::ZipArchive<std::io::Cursor<Vec<u8>>>) -> (count: usize)
    ensures
        count == zip_entry_count(archive_bytes(*archive)),
{
    archive.len()
}

/// Calls `zip::ZipArchive::by_index`. Whether it succeeds depends on the
/// archive's bytes and the index alone; the archive stays one over the same
/// bytes; the reader handed back is that of the member asked for.
#[verifier::external_body]
fn entry_at<'a>(archive: &'a mut zip::ZipArchive<std::io::Cursor<Vec<u8>>>, index: usize) -> (found:
    Result<EntryReader<'a>, zip::result::ZipError>)
    ensures
        archive_bytes(*final(archive)) == archive_bytes(*old(archive)),
        found is Ok <==> zip_entry_opens(archive_bytes(*old(archive)), index as int),
        found matches Ok(reader) ==> reader_bytes(reader) == archive_bytes(*old(archive))
            && reader_index(reader) == index,
{
    match archive.by_index(index) {
        Ok(inner) => Ok(EntryReader { inner }),
        Err(error) => Err(error),
    }
}

/// Calls `zip::read::ZipFile::name`: the member's name as the archive's
/// directory gives it.
#[verifier::external_body]
fn entry_name(reader: &EntryReader<'_>) -> (name: String)
    ensures
        name@ == zip_entry_name(reader_bytes(*reader), reader_index(*reader)),
{
    reader.inner.name().to_string()
}

/// Calls `zip::read::ZipFile::enclosed_name`, which tests the member's name
/// by the path rules of the platform. Where it accepts the name, the path
/// it hands back is the name itself. When it accepts a name differs from
/// platform to platform and is not stated.
#[verifier::external_body]
fn entry_enclosed_name(reader: &EntryReader<'_>) -> (enclosed: Option<String>)
    ensures
        enclosed matches Some(path) ==> path@ == zip_entry_name(
            reader_bytes(*reader),
            reader_index(*reader),
        ),
{
    match reader.inner.enclosed_name() {
        Some(path) => Some(path.to_string_lossy().into_owned()),
        None => None,
    }
}

/// Calls `std::io::Read::read_to_end` on the member's `zip::read::ZipFile`,
/// which has not been read from before. Whether it succeeds, and the bytes
/// it yields, depend on the archive's bytes and the member's index alone.
#[verifier::external_body]
fn entry_bytes(reader: EntryReader<'_>) -> (read: Result<Vec<u8>, std::io::Error>)
    ensures
        read is Ok <==> zip_entry_data(reader_bytes(reader), reader_index(reader)) is Some,
        read matches Ok(data) ==> zip_entry_data(reader_bytes(reader), reader_index(reader))
            == Some(data@),
{
    let mut reader = reader;
    let mut data = Vec::new();
    match std::io::Read::read_to_end(&mut reader.inner, &mut data) {
        Ok(_) => Ok(data),
        Err(error) => Err(error),
    }
}

/// The text that `zip::result::ZipError` displays as.
#[verifier::external_body]
fn zip_error_text(error: &zip::result::ZipError) -> String {
    format!("{}", error)
}

/// The text that `std::io::Error` displays as.
#[verifier::external_body]
fn io_error_text(error: &std::io::Error) -> String {
    format!("{}", error)
}

/// One write of an unpacking.
#[derive(Debug, PartialEq, Eq)]
pub enum WriteOp {
    /// Create the directory `path` and the directories above it.
    MakeDir { path: String },
    /// Create the file `path`, after the directories above it where they
    /// are missing, and write `data` to it.
    WriteFile { path: String, data: Vec<u8> },
}

/// A [`WriteOp`] as plain values.
pub enum WriteOpView {
    MakeDir { path: Seq<char> },
    WriteFile { path: Seq<char>, data: Seq<u8> },
}

impl View for WriteOp {
    type V = WriteOpView;

    open spec fn view(&self) -> WriteOpView {
        match self {
            WriteOp::MakeDir { path } => WriteOpView::MakeDir { path: path@ },
            WriteOp::WriteFile { path, data } => WriteOpView::WriteFile { path: path@, data: data@ },
        }
    }
}

/// A list of writes as plain values.
pub open spec fn plan(ops: Seq<WriteOp>) -> Seq<WriteOpView> {
    Seq::new(ops.len(), |i: int| ops[i]@)
}

/// Whether a member's name is that of a directory: it ends with `/`.
pub open spec fn is_directory_name(name: Seq<char>) -> bool {
    name.len() > 0 && name.last() == '/'
}

/// The failure that refuses the member `name`.
pub open spec fn traversal(name: Seq<char>) -> DeployErrorView {
    DeployErrorView { kind: Failure::Traversal, detail: name }
}

/// Where a member goes. `enclosed` is the member's path as the platform's
/// own test accepted it, or `None` where that test refused the name. The
/// member goes to its path below `root` if both that test and
/// [`stays_inside`] accept it; else it is refused.
pub open spec fn placed(root: Seq<char>, name: Seq<char>, enclosed: Option<Seq<char>>) -> Result<
    Seq<char>,
    DeployErrorView,
> {
    match enclosed {
        Some(path) => if stays_inside(path) {
            Ok(joined(root, path))
        } else {
            Err(traversal(name))
        },
        None => Err(traversal(name)),
    }
}

/// The write that member `index` of the archive `source` stands for, when
/// unpacked into `root`: a directory to create, or a file with the member's
/// content.
pub open spec fn member(source: Seq<u8>, root: Seq<char>, index: int) -> WriteOpView {
    let name = zip_entry_name(source, index);
    if is_directory_name(name) {
        WriteOpView::MakeDir { path: joined(root, name) }
    } else {
        WriteOpView::WriteFile { path: joined(root, name), data: zip_entry_data(source, index)->0 }
    }
}

/// What is wrong with member `index` of the archive `source`, if anything:
/// it cannot be reached, its name leads out of the directory it is unpacked
/// into, or it is a file whose content cannot be read.
pub open spec fn member_fault(source: Seq<u8>, index: int) -> Option<Failure> {
    let name = zip_entry_name(source, index);
    if !zip_entry_opens(source, index) {
        Some(Failure::ReadEntry)
    } else if !stays_inside(name) {
        Some(Failure::Traversal)
    } else if !is_directory_name(name) && zip_entry_data(source, index) is None {
        Some(Failure::WriteFile)
    } else {
        None
    }
}

/// `ops` unpacks the archive `source` into `root`: the archive is
/// readable, nothing is wrong with any member, and there is one write for
/// each member, in the order of the archive's directory.
pub open spec fn unpacked(source: Seq<u8>, root: Seq<char>, ops: Seq<WriteOpView>) -> bool {
    &&& zip_readable(source)
    &&& ops.len() == zip_entry_count(source)
    &&& forall|i: int|
        0 <= i < ops.len() ==> member_fault(source, i) is None && #[trigger] ops[i] == member(
            source,
            root,
            i,
        )
}

/// `error` is what unpacking the archive `source` fails with at member
/// `at`: nothing is wrong with the members before it, and the error tells
/// what is wrong with this one. A member that cannot be reached fails as
/// such. A member whose name leads out fails as a traversal, and so does
/// any member that the platform's own test refuses, which may be one that
/// nothing else is wrong with. A file whose content cannot be read fails as
/// a write that failed.
pub open spec fn refused_at(source: Seq<u8>, at: int, error: DeployErrorView) -> bool {
    &&& 0 <= at < zip_entry_count(source)
    &&& forall|j: int| 0 <= j < at ==> #[trigger] member_fault(source, j) is None
    &&& match member_fault(source, at) {
        Some(Failure::ReadEntry) => error.kind == Failure::ReadEntry,
        Some(Failure::Traversal) => error == traversal(zip_entry_name(source, at)),
        Some(_) => error.kind == Failure::WriteFile || error == traversal(
            zip_entry_name(source, at),
        ),
        None => error == traversal(zip_entry_name(source, at)),
    }
}

/// `error` is what unpacking the archive `source` fails with: the archive
/// is unreadable, or unpacking fails at one of its members.
pub open spec fn refused(source: Seq<u8>, error: DeployErrorView) -> bool {
    if !zip_readable(source) {
        error.kind == Failure::ReadArchive
    } else {
        exists|at: int| refused_at(source, at, error)
    }
}

/// Whether a member's name is that of a directory.
pub fn names_directory(name: &str) -> (r: bool)
    ensures
        r == is_directory_name(name@),
{
    let n = name.unicode_len();
    n > 0 && name.get_char(n - 1) == '/'
}

/// Decides where the member `name` goes when unpacked into `root`.
/// `enclosed` is what the platform's own test made of the name.
pub fn place_entry(root: &str, name: &str, enclosed: Option<String>) -> (r: Result<
    String,
    DeployError,
>)
    ensures
        match r {
            Ok(path) => placed(root@, name@, option_text(enclosed)) == Ok::<
                Seq<char>,
                DeployErrorView,
            >(path@),
            Err(error) => placed(root@, name@, option_text(enclosed)) == Err::<
                Seq<char>,
                DeployErrorView,
            >(error@),
        },
{
    match enclosed {
        Some(path) => {
            if is_enclosed(path.as_str()) {
                Ok(join(root, path.as_str()))
            } else {
                Err(DeployError::new(Failure::Traversal, String::from_str(name)))
            }
        },
        None => Err(DeployError::new(Failure::Traversal, String::from_str(name))),
    }
}

/// The text of a string that may be missing.
pub open spec fn option_text(text: Option<String>) -> Option<Seq<char>> {
    match text {
        Some(text) => Some(text@),
        None => None,
    }
}

/// Reads the archive `bytes` and plans its unpacking into the directory
/// `root`: one write for each member, in the order of the archive's
/// directory. Fails at the first member that something is wrong with, and
/// then plans no write at all.
pub fn unpack(bytes: Vec<u8>, root: &str) -> (r: Result<Vec<WriteOp>, DeployError>)
    ensures
        match r {
            Ok(ops) => unpacked(bytes@, root@, plan(ops@)),
            Err(error) => refused(bytes@, error@),
        },
{
    let ghost source = bytes@;
    match open_archive(bytes) {
        Err(error) => Err(DeployError::new(Failure::ReadArchive, zip_error_text(&error))),
        Ok(mut archive) => {
            let count = archive_len(&archive);
            let mut ops: Vec<WriteOp> = Vec::new();
            let mut i: usize = 0;
            while i < count
                invariant
                    source == bytes@,
                    zip_readable(source),
                    archive_bytes(archive) == source,
                    count == zip_entry_count(source),
                    i <= count,
                    ops.len() == i,
                    forall|j: int| 0 <= j < i ==> #[trigger] member_fault(source, j) is None,
                    forall|j: int| 0 <= j < i ==> (#[trigger] ops[j])@ == member(source, root@, j),
                decreases count - i,
            {
                match entry_at(&mut archive, i) {
                    Err(error) => {
                        let error = DeployError::new(Failure::ReadEntry, zip_error_text(&error));
                        assert(refused_at(source, i as int, error@));
                        return Err(error);
                    },
                    Ok(reader) => {
                        let name = entry_name(&reader);
                        let enclosed = entry_enclosed_name(&reader);
                        match place_entry(root, name.as_str(), enclosed) {
                            Err(error) => {
                                assert(refused_at(source, i as int, error@));
                                return Err(error);
                            },
                            Ok(path) => {
                                if names_directory(name.as_str()) {
                                    ops.push(WriteOp::MakeDir { path });
                                } else {
                                    match entry_bytes(reader) {
                                        Err(error) => {
                                            let error = DeployError::new(
                                                Failure::WriteFile,
                                                io_error_text(&error),
                                            );
                                            assert(refused_at(source, i as int, error@));
                                            return Err(error);
                                        },
                                        Ok(data) => {
                                            ops.push(WriteOp::WriteFile { path, data });
                                        },
                                    }
                                }
                            },
                        }
                    },
                }
                i = i + 1;
            }
            proof {
                let views = plan(ops@);
                assert forall|k: int| 0 <= k < views.len() implies member_fault(source, k) is None
                    && #[trigger] views[k] == member(source, root@, k) by {
                    assert(views[k] == ops[k]@);
                }
            }
            Ok(ops)
        },
    }
}

/// The path that a write goes to.
pub open spec fn target(op: WriteOpView) -> Seq<char> {
    match op {
        WriteOpView::MakeDir { path } => path,
        WriteOpView::WriteFile { path, .. } => path,
    }
}

/// A member that is given a place has it below the root: a walk along the
/// path it is written to, once it has passed the parts of `root`, never
/// leaves `root`.
pub proof fn lemma_placed_below_root(root: Seq<char>, name: Seq<char>, enclosed: Option<Seq<char>>)
    requires
        resolved(split(root, '/')) is Some,
        placed(root, name, enclosed) is Ok,
    ensures
        stays_below(
            split(placed(root, name, enclosed)->Ok_0, '/'),
            root_parts(root).len() as int,
            resolved(split(root, '/'))->0,
        ),
{
    lemma_enclosed_means_below_root(root, enclosed->0);
}

/// No write of an unpacking leaves the root: every write of `ops` goes to
/// the path of its member below `root`, and a walk along that path, once
/// it has passed the parts of `root`, never leaves `root`.
pub proof fn lemma_unpacked_below_root(source: Seq<u8>, root: Seq<char>, ops: Seq<WriteOpView>, i: int)
    requires
        resolved(split(root, '/')) is Some,
        0 <= i < ops.len(),
    ensures
        unpacked(source, root, ops) ==> stays_below(
            split(target(ops[i]), '/'),
            root_parts(root).len() as int,
            resolved(split(root, '/'))->0,
        ),
{
    if unpacked(source, root, ops) {
        assert(member_fault(source, i) is None && ops[i] == member(source, root, i));
        lemma_enclosed_means_below_root(root, zip_entry_name(source, i));
    }
}

/// An archive with a member whose name leads out of the root is not
/// unpacked: no list of writes unpacks it, so unpacking it fails and
/// nothing of it is written.
pub proof fn lemma_traversal_is_never_unpacked(
    source: Seq<u8>,
    root: Seq<char>,
    ops: Seq<WriteOpView>,
    at: int,
)
    ensures
        0 <= at < zip_entry_count(source) && !stays_inside(zip_entry_name(source, at)) ==> !unpacked(
            source,
            root,
            ops,
        ),
{
    if 0 <= at < zip_entry_count(source) && unpacked(source, root, ops) {
        assert(member_fault(source, at) is None && ops[at] == member(source, root, at));
    }
}

} // verus!
