//! File names and paths as text with `/` between the parts: the name an
//! artifact is cached under, the directory an archive is unpacked into, and
//! what tells an archive and a package by their names.

use vstd::prelude::*;
use vstd::string::*;
use crate::text::{
    chars_of, cut_after, ends_with_folded, find_cut, folded, framed, has_suffix, lemma_cut_after,
    tail_after,
};

verus! {

/// The name a download is cached under where its URL gives none.
pub const DEFAULT_NAME: &'static str = "app.hap";

/// What the name of an archive ends with.
pub const ARCHIVE_EXTENSION: &'static str = ".zip";

/// What the name of an installable package ends with.
pub const PACKAGE_EXTENSION: &'static str = ".hap";

/// The name a download is cached under: what follows the last `/` of the
/// URL, or all of the URL where it holds no `/`. Where that is empty, the
/// name is [`DEFAULT_NAME`].
pub open spec fn cache_name(url: Seq<char>) -> Seq<char> {
    let segment = tail_after(url, '/');
    if segment.len() == 0 {
        DEFAULT_NAME@
    } else {
        segment
    }
}

/// `name` below the directory `dir`. One `/` stands between the two unless
/// `dir` is empty or brings its own.
pub open spec fn joined(dir: Seq<char>, name: Seq<char>) -> Seq<char> {
    if dir.len() == 0 {
        name
    } else if dir.last() == '/' {
        dir + name
    } else {
        dir + "/"@ + name
    }
}

/// A file name without its extension: what stands before the last `.`. A
/// name without a `.`, or with its only `.` in front, is its own stem.
pub open spec fn stem(name: Seq<char>) -> Seq<char> {
    let cut = cut_after(name, '.');
    if cut <= 1 {
        name
    } else {
        name.subrange(0, cut - 1)
    }
}

/// Where the artifact from `url` is cached: directly in the cache directory
/// `temp_dir`, under the name taken from the URL.
pub open spec fn cached_at(temp_dir: Seq<char>, url: Seq<char>) -> Seq<char> {
    joined(temp_dir, cache_name(url))
}

/// Where the archive from `url` is unpacked: in a directory beside the
/// cached archive, named like the archive without its extension.
pub open spec fn unpacked_at(temp_dir: Seq<char>, url: Seq<char>) -> Seq<char> {
    joined(temp_dir, stem(cache_name(url)))
}

/// Whether a file of this name is an archive to unpack: the name ends with
/// `.zip`, in any mix of upper and lower case.
pub open spec fn is_archive_name(name: Seq<char>) -> bool {
    has_suffix(folded(name), ARCHIVE_EXTENSION@)
}

/// Whether the file at this path is an installable package: its last part
/// ends with `.hap`, in any mix of upper and lower case, behind at least one
/// other character.
pub open spec fn is_package_path(path: Seq<char>) -> bool {
    let leaf = tail_after(path, '/');
    leaf.len() > PACKAGE_EXTENSION@.len() && has_suffix(folded(leaf), PACKAGE_EXTENSION@)
}

/// The name a download from `url` is cached under.
pub fn cache_file_name(url: &str) -> (name: String)
    ensures
        name@ == cache_name(url@),
{
    let chars = chars_of(url);
    let cut = find_cut(&chars, '/');
    if cut == chars.len() {
        String::from_str(DEFAULT_NAME)
    } else {
        String::from_str(url.substring_char(cut, chars.len()))
    }
}

/// The path of `name` below the directory `dir`.
pub fn join(dir: &str, name: &str) -> (path: String)
    ensures
        path@ == joined(dir@, name@),
{
    let n = dir.unicode_len();
    if n == 0 {
        String::from_str(name)
    } else if dir.get_char(n - 1) == '/' {
        let mut path = String::from_str(dir);
        path.append(name);
        path
    } else {
        framed(dir, "/", name)
    }
}

/// The path at which the artifact from `url` is cached below `temp_dir`.
pub fn cache_path_of(temp_dir: &str, url: &str) -> (path: String)
    ensures
        path@ == cached_at(temp_dir@, url@),
{
    let name = cache_file_name(url);
    join(temp_dir, name.as_str())
}

/// The directory below `temp_dir` into which the archive from `url` is
/// unpacked.
pub fn extraction_root_of(temp_dir: &str, url: &str) -> (path: String)
    ensures
        path@ == unpacked_at(temp_dir@, url@),
{
    let name = cache_file_name(url);
    let base = file_stem(name.as_str());
    join(temp_dir, base.as_str())
}

/// The file name `name` without its extension.
pub fn file_stem(name: &str) -> (base: String)
    ensures
        base@ == stem(name@),
{
    let chars = chars_of(name);
    let cut = find_cut(&chars, '.');
    if cut <= 1 {
        String::from_str(name)
    } else {
        String::from_str(name.substring_char(0, cut - 1))
    }
}

/// Whether a file of this name is an archive to unpack.
pub fn is_archive(name: &str) -> (r: bool)
    ensures
        r == is_archive_name(name@),
{
    let chars = chars_of(name);
    ends_with_folded(&chars, ARCHIVE_EXTENSION)
}

/// Whether the file at `path` is an installable package.
pub fn is_package(path: &str) -> (r: bool)
    ensures
        r == is_package_path(path@),
{
    let chars = chars_of(path);
    let cut = find_cut(&chars, '/');
    let extension = chars_of(PACKAGE_EXTENSION);
    if chars.len() - cut <= extension.len() {
        return false;
    }
    let r = ends_with_folded(&chars, PACKAGE_EXTENSION);
    proof {
        let leaf = tail_after(path@, '/');
        let from = path@.len() - PACKAGE_EXTENSION@.len();
        assert(folded(leaf).subrange(leaf.len() - PACKAGE_EXTENSION@.len(), leaf.len() as int)
            =~= folded(path@).subrange(from, path@.len() as int));
    }
    r
}

/// The name a download is cached under holds no `/`: the cached file lies
/// directly in the cache directory, whatever the URL.
pub proof fn lemma_cache_name_is_plain(url: Seq<char>)
    ensures
        !cache_name(url).contains('/'),
        cache_name(url).len() > 0,
{
    reveal_strlit("app.hap");
    lemma_cut_after(url, '/');
    if tail_after(url, '/').len() == 0 {
        let name = DEFAULT_NAME@;
        assert forall|i: int| 0 <= i < name.len() implies name[i] != '/' by {}
    }
}

} // verus!
