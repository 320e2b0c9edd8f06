//! The text of the progress lines.

use vstd::prelude::*;
use vstd::string::*;

verus! {

/// Sent before the device list is asked for.
pub const CHECKING_DEVICES: &'static str = "正在检查设备连接状态...\n";

/// Sent where no device can be used.
pub const NO_DEVICE: &'static str = "没有可操作设备，开启鸿蒙手机开发者模式并检测设备连接后重试\n";

/// Where to read how a device is put into developer mode.
pub const DEVELOPER_MODE_HELP: &'static str = "https://developer.huawei.com/consumer/cn/doc/harmonyos-guides-V5/ide-developer-mode-V5\n";

/// Heads the line that names the cached file that was found.
pub const CACHE_HIT: &'static str = "找到本地缓存文件: ";

/// Heads the line that names the URL a download starts from.
pub const DOWNLOAD_STARTS: &'static str = "开始下载文件: ";

/// Heads the line that names the file a download was saved to.
pub const DOWNLOAD_DONE: &'static str = "文件下载完成: ";

/// Heads the line that names the archive about to be unpacked.
pub const ARCHIVE_FOUND: &'static str = "检测到ZIP文件，开始解压: ";

/// Heads the line that names the directory about to be created.
pub const CREATING_ROOT: &'static str = "创建解压目录: ";

/// Heads the line that names the directory the archive is unpacked into.
pub const UNPACK_STARTS: &'static str = "开始解压文件到: ";

/// Sent when the archive has been unpacked.
pub const UNPACK_DONE: &'static str = "文件解压完成\n";

/// Heads the line that names the directory of an earlier unpacking.
pub const ROOT_REUSED: &'static str = "解压目录已存在: ";

/// Sent before the unpacked files are searched.
pub const SEARCHING: &'static str = "开始查找.hap文件...\n";

/// Heads the line that names the package that was found.
pub const PACKAGE_FOUND: &'static str = "找到.hap文件: ";

/// Sent where the unpacked files hold no package.
pub const PACKAGE_MISSING: &'static str = "在解压包中未找到.hap文件\n";

/// Sent before the package is installed.
pub const INSTALLING: &'static str = "开始安装应用...\n";

/// Sent when the bridge tool ended with exit code 0.
pub const INSTALL_OK: &'static str = "应用安装成功!\n";

/// Sent when the bridge tool ended with another exit code.
pub const INSTALL_FAILED: &'static str = "应用安装失败!\n";

/// Stands before every line that the bridge tool wrote to its error stream.
pub const ERROR_PREFIX: &'static str = "[错误] ";

/// Heads the line that reports an error of the process stream itself.
pub const STREAM_ERROR: &'static str = "执行命令时出错: ";

/// What the bridge tool prints in place of a device list where no device is
/// attached.
pub const EMPTY_MARKER: &'static str = "[Empty]";

/// What every line from the bridge tool's error stream is marked with.
pub const ERROR_MARKER: &'static str = "[错误]";

/// Ends a line.
pub const LINE_END: &'static str = "\n";

/// A progress line: a heading, what it is about, and the end of the line.
pub open spec fn line(head: Seq<char>, about: Seq<char>) -> Seq<char> {
    head + about + LINE_END@
}

/// The progress line made of `head` and `about`.
pub fn line_text(head: &str, about: &str) -> (text: String)
    ensures
        text@ == line(head@, about@),
{
    let mut text = String::from_str(head);
    text.append(about);
    text.append(LINE_END);
    text
}

/// All the lines, one behind the other.
pub open spec fn concat(lines: Seq<Seq<char>>) -> Seq<char>
    decreases lines.len(),
{
    if lines.len() == 0 {
        Seq::<char>::empty()
    } else {
        concat(lines.drop_last()) + lines.last()
    }
}

/// The texts of a list of strings.
pub open spec fn texts(lines: Seq<String>) -> Seq<Seq<char>> {
    Seq::new(lines.len(), |i: int| lines[i]@)
}

/// One more line adds its text at the end.
pub proof fn lemma_concat_push(lines: Seq<Seq<char>>, last: Seq<char>)
    ensures
        concat(lines.push(last)) == concat(lines) + last,
{
    assert(lines.push(last).drop_last() =~= lines);
}

/// Lines in two batches hold the text of the first batch, then that of the
/// second.
pub proof fn lemma_concat_add(first: Seq<Seq<char>>, second: Seq<Seq<char>>)
    ensures
        concat(first + second) == concat(first) + concat(second),
    decreases second.len(),
{
    if second.len() == 0 {
        assert(first + second =~= first);
        assert(concat(first) + concat(second) =~= concat(first));
    } else {
        lemma_concat_add(first, second.drop_last());
        assert((first + second).drop_last() =~= first + second.drop_last());
        assert((first + second).last() == second.last());
        assert((concat(first) + concat(second.drop_last())) + second.last() =~= concat(first) + (
        concat(second.drop_last()) + second.last()));
    }
}

} // verus!
