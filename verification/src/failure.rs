//! The failures that end a deployment as an error.

use vstd::prelude::*;
use vstd::string::*;

verus! {

/// What went wrong. Each kind has its own headline.
#[derive(Clone, Copy, Debug, PartialEq, Eq, Structural)]
pub enum Failure {
    /// The bridge tool could not be started.
    Spawn,
    /// The HTTP client could not be set up.
    HttpClient,
    /// The request for the artifact failed.
    Request,
    /// The body of the response could not be read.
    Body,
    /// The artifact could not be written to the cache.
    Save,
    /// The directory to unpack into could not be created.
    CreateRoot,
    /// The cached archive could not be opened.
    OpenArchive,
    /// The cached file is not a readable archive.
    ReadArchive,
    /// A member of the archive could not be reached.
    ReadEntry,
    /// A member of the archive would be written outside the directory that
    /// the archive is unpacked into.
    Traversal,
    /// A directory of the archive could not be created.
    CreateDir,
    /// The directory that holds a member could not be created.
    CreateParent,
    /// The file for a member could not be created.
    CreateFile,
    /// The content of a member could not be copied to its file.
    WriteFile,
    /// The unpacked files could not be listed.
    Walk,
}

/// Heads the message of [`Failure::Spawn`].
pub const SPAWN_FAILED: &'static str = "启动命令失败: ";

/// Heads the message of [`Failure::HttpClient`].
pub const HTTP_CLIENT_FAILED: &'static str = "创建HTTP客户端失败: ";

/// Heads the message of [`Failure::Request`].
pub const REQUEST_FAILED: &'static str = "下载文件失败: ";

/// Heads the message of [`Failure::Body`].
pub const BODY_FAILED: &'static str = "读取文件内容失败: ";

/// Heads the message of [`Failure::Save`].
pub const SAVE_FAILED: &'static str = "保存文件失败: ";

/// Heads the message of [`Failure::CreateRoot`].
pub const CREATE_ROOT_FAILED: &'static str = "创建解压目录失败: ";

/// Heads the message of [`Failure::OpenArchive`].
pub const OPEN_ARCHIVE_FAILED: &'static str = "打开ZIP文件失败: ";

/// Heads the message of [`Failure::ReadArchive`].
pub const READ_ARCHIVE_FAILED: &'static str = "读取ZIP文件失败: ";

/// Heads the message of [`Failure::ReadEntry`].
pub const READ_ENTRY_FAILED: &'static str = "访问ZIP文件内容失败: ";

/// Heads the message of [`Failure::Traversal`].
pub const TRAVERSAL_REFUSED: &'static str = "ZIP文件包含不安全的路径: ";

/// Heads the message of [`Failure::CreateDir`].
pub const CREATE_DIR_FAILED: &'static str = "创建目录失败: ";

/// Heads the message of [`Failure::CreateParent`].
pub const CREATE_PARENT_FAILED: &'static str = "创建父目录失败: ";

/// Heads the message of [`Failure::CreateFile`].
pub const CREATE_FILE_FAILED: &'static str = "创建文件失败: ";

/// Heads the message of [`Failure::WriteFile`].
pub const WRITE_FILE_FAILED: &'static str = "写入文件失败: ";

/// Heads the message of [`Failure::Walk`].
pub const WALK_FAILED: &'static str = "遍历目录失败: ";

/// The headline of a kind of failure.
pub open spec fn headline(kind: Failure) -> Seq<char> {
    match kind {
        Failure::Spawn => SPAWN_FAILED@,
        Failure::HttpClient => HTTP_CLIENT_FAILED@,
        Failure::Request => REQUEST_FAILED@,
        Failure::Body => BODY_FAILED@,
        Failure::Save => SAVE_FAILED@,
        Failure::CreateRoot => CREATE_ROOT_FAILED@,
        Failure::OpenArchive => OPEN_ARCHIVE_FAILED@,
        Failure::ReadArchive => READ_ARCHIVE_FAILED@,
        Failure::ReadEntry => READ_ENTRY_FAILED@,
        Failure::Traversal => TRAVERSAL_REFUSED@,
        Failure::CreateDir => CREATE_DIR_FAILED@,
        Failure::CreateParent => CREATE_PARENT_FAILED@,
        Failure::CreateFile => CREATE_FILE_FAILED@,
        Failure::WriteFile => WRITE_FILE_FAILED@,
        Failure::Walk => WALK_FAILED@,
    }
}

/// The headline of a kind of failure.
pub fn headline_text(kind: Failure) -> (text: &'static str)
    ensures
        text@ == headline(kind),
{
    match kind {
        Failure::Spawn => SPAWN_FAILED,
        Failure::HttpClient => HTTP_CLIENT_FAILED,
        Failure::Request => REQUEST_FAILED,
        Failure::Body => BODY_FAILED,
        Failure::Save => SAVE_FAILED,
        Failure::CreateRoot => CREATE_ROOT_FAILED,
        Failure::OpenArchive => OPEN_ARCHIVE_FAILED,
        Failure::ReadArchive => READ_ARCHIVE_FAILED,
        Failure::ReadEntry => READ_ENTRY_FAILED,
        Failure::Traversal => TRAVERSAL_REFUSED,
        Failure::CreateDir => CREATE_DIR_FAILED,
        Failure::CreateParent => CREATE_PARENT_FAILED,
        Failure::CreateFile => CREATE_FILE_FAILED,
        Failure::WriteFile => WRITE_FILE_FAILED,
        Failure::Walk => WALK_FAILED,
    }
}

/// A failure that ends the deployment: its kind, and what the failing
/// operation reported.
#[derive(Debug, PartialEq, Eq)]
pub struct DeployError {
    pub kind: Failure,
    pub detail: String,
}

/// A [`DeployError`] as plain values.
pub struct DeployErrorView {
    pub kind: Failure,
    pub detail: Seq<char>,
}

impl View for DeployError {
    type V = DeployErrorView;

    open spec fn view(&self) -> DeployErrorView {
        DeployErrorView { kind: self.kind, detail: self.detail@ }
    }
}

/// The message of an error: the headline of its kind, then the detail.
pub open spec fn message_of(error: DeployErrorView) -> Seq<char> {
    headline(error.kind) + error.detail
}

impl DeployError {
    /// An error of the given kind.
    pub fn new(kind: Failure, detail: String) -> (error: DeployError)
        ensures
            error@ == (DeployErrorView { kind, detail: detail@ }),
    {
        DeployError { kind, detail }
    }

    /// The message to show for this error.
    pub fn message(&self) -> (text: String)
        ensures
            text@ == message_of(self@),
    {
        let mut text = String::from_str(headline_text(self.kind));
        text.append(self.detail.as_str());
        text
    }

    /// A copy of this error.
    pub fn duplicate(&self) -> (copy: DeployError)
        ensures
            copy@ == self@,
    {
        DeployError { kind: self.kind, detail: self.detail.clone() }
    }
}

} // verus!
