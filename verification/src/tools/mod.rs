//! The built-in tools' logic: which directory entries a search skips, which
//! files count as binary or protected, and result pagination. The search and
//! write tools themselves are in the submodules; walking directories and
//! touching files happens around them.
use vstd::prelude::*;

use crate::text::owned;

pub mod search;
pub mod write;

verus! {

/// Directories excluded from recursive search.
pub const SKIP_DIRS: [&'static str; 14] = [
    ".git",
    ".svn",
    ".hg",
    ".bzr",
    "target",
    "node_modules",
    "build",
    "dist",
    "__pycache__",
    ".cache",
    ".next",
    ".nuxt",
    "vendor",
    "bower_components",
];

/// Extensions treated as binary (skipped by content search).
pub const BINARY_EXTENSIONS: [&'static str; 34] = [
    "exe",
    "dll",
    "so",
    "dylib",
    "bin",
    "png",
    "jpg",
    "jpeg",
    "gif",
    "ico",
    "bmp",
    "webp",
    "svg",
    "pdf",
    "zip",
    "tar",
    "gz",
    "bz2",
    "xz",
    "7z",
    "rar",
    "class",
    "pyc",
    "pyo",
    "wasm",
    "woff",
    "woff2",
    "ttf",
    "eot",
    "mp3",
    "mp4",
    "avi",
    "mov",
    "mkv",
];

/// Files that should never be modified.
pub const PROTECTED_FILES: [&'static str; 9] = [
    ".env",
    ".env.local",
    ".gitconfig",
    ".bashrc",
    ".zshrc",
    ".mcp.json",
    "id_rsa",
    "id_ed25519",
    "id_ecdsa",
];

/// The texts of a list of string slices.
pub open spec fn texts(a: Seq<&str>) -> Seq<Seq<char>> {
    a.map_values(|s: &str| s@)
}

/// Whether two string slices hold the same text.
pub fn same_text(a: &str, b: &str) -> (r: bool)
    ensures
        r == (a@ == b@),
{
    owned(a) == owned(b)
}

/// Whether `name` is one of `list`.
fn listed(list: &[&str], name: &str) -> (r: bool)
    ensures
        r == texts(list@).contains(name@),
{
    let mut i: usize = 0;
    while i < list.len()
        invariant
            i <= list.len(),
            forall|k: int| 0 <= k < i ==> (#[trigger] list@[k])@ != name@,
        decreases list.len() - i,
    {
        if same_text(list[i], name) {
            assert(texts(list@)[i as int] == name@);
            return true;
        }
        i = i + 1;
    }
    assert forall|k: int| 0 <= k < texts(list@).len() implies #[trigger] texts(list@)[k] != name@ by {
        assert(texts(list@)[k] == list@[k]@);
    }
    false
}

/// Whether a path component is a skipped directory.
pub fn is_skip_dir(name: &str) -> (r: bool)
    ensures
        r == texts(SKIP_DIRS@).contains(name@),
{
    listed(&SKIP_DIRS, name)
}

/// Whether a directory entry is left out of a search walk: hidden entries
/// (a leading `.`) and skipped directories.
pub fn is_skipped_entry(name: &str) -> (r: bool)
    ensures
        r == (crate::text::has_prefix(name@, seq!['.']) || texts(SKIP_DIRS@).contains(name@)),
{
    let dot = crate::text::starts_with(name, ".");
    proof {
        reveal_strlit(".");
        assert("."@ == seq!['.']);
    }
    dot || is_skip_dir(name)
}

/// The index of the last occurrence of `c` in `s`.
pub open spec fn last_index(s: Seq<char>, c: char) -> Option<int>
    decreases s.len(),
{
    if s.len() == 0 {
        None
    } else if s.last() == c {
        Some(s.len() - 1)
    } else {
        last_index(s.drop_last(), c)
    }
}

/// The extension of a file name, as `Path::extension` reads it: the text
/// after the last `.`, unless there is no `.`, the only `.` starts the name,
/// or the name is `..`.
pub open spec fn file_extension(name: Seq<char>) -> Option<Seq<char>> {
    if name == seq!['.', '.'] {
        None
    } else {
        match last_index(name, '.') {
            None => None,
            Some(k) => if k == 0 {
                None
            } else {
                Some(name.skip(k + 1))
            },
        }
    }
}

proof fn lemma_last_index(s: Seq<char>, c: char, i: int)
    requires
        -1 <= i < s.len(),
        forall|k: int| i < k < s.len() ==> s[k] != c,
    ensures
        i >= 0 && s[i] == c ==> last_index(s, c) == Some(i),
        i == -1 ==> last_index(s, c) is None,
    decreases s.len(),
{
    if s.len() > 0 && i < s.len() - 1 {
        lemma_last_index(s.drop_last(), c, i);
    }
}

/// The extension of a file name.
pub fn extension_of(name: &str) -> (r: Option<String>)
    ensures
        match file_extension(name@) {
            None => r is None,
            Some(e) => r matches Some(t) && t@ == e,
        },
{
    let cs = crate::text::to_chars(name);
    if cs.len() == 2 && cs[0] == '.' && cs[1] == '.' {
        assert(name@ == seq!['.', '.']);
        return None;
    }
    assert(name@ != seq!['.', '.']);
    let mut i: usize = cs.len();
    while i > 0 && cs[i - 1] != '.'
        invariant
            i <= cs.len(),
            cs@ == name@,
            forall|k: int| i <= k < cs.len() ==> cs@[k] != '.',
        decreases i,
    {
        i = i - 1;
    }
    proof {
        lemma_last_index(cs@, '.', i - 1);
    }
    if i <= 1 {
        return None;
    }
    Some(crate::text::from_chars(&cs.as_slice()[i..cs.len()]))
}

/// Whether a file name's extension marks binary content.
pub fn is_binary_extension(file_name: &str) -> (r: bool)
    ensures
        r == (file_extension(file_name@) matches Some(e) && texts(BINARY_EXTENSIONS@).contains(e)),
{
    match extension_of(file_name) {
        Some(e) => listed(&BINARY_EXTENSIONS, e.as_str()),
        None => false,
    }
}

/// Whether a file name is one that must never be written.
pub fn is_protected_file(file_name: &str) -> (r: bool)
    ensures
        r == texts(PROTECTED_FILES@).contains(file_name@),
{
    listed(&PROTECTED_FILES, file_name)
}

/// Where a page of `total` results starts: at `offset`, or at the end.
pub open spec fn page_start(total: nat, offset: nat) -> nat {
    if offset < total { offset } else { total }
}

/// Where a page of `total` results ends: `head_limit` results after its
/// start (all of them when `head_limit` is 0), or at the end.
pub open spec fn page_end(total: nat, offset: nat, head_limit: nat) -> nat {
    let limit = if head_limit == 0 { total } else { head_limit };
    let end = page_start(total, offset) + limit;
    if end < total { end } else { total }
}

/// Paginates results: the total before pagination, and the results from
/// `offset` on, at most `head_limit` of them (0 means no limit).
pub fn paginate<T>(items: Vec<T>, offset: usize, head_limit: usize) -> (r: (usize, Vec<T>))
    requires
        page_start(items@.len(), offset as nat) + (if head_limit == 0 { items@.len() } else { head_limit as nat }) <= usize::MAX,
    ensures
        r.0 == items@.len(),
        r.1@ == items@.subrange(
            page_start(items@.len(), offset as nat) as int,
            page_end(items@.len(), offset as nat, head_limit as nat) as int,
        ),
{
    let total = items.len();
    let effective_limit = if head_limit == 0 { total } else { head_limit };
    let start = if offset < total { offset } else { total };
    let end = if start + effective_limit < total { start + effective_limit } else { total };
    let ghost all = items@;
    let mut items = items;
    let mut kept = items.split_off(start);
    kept.truncate(end - start);
    assert(kept@ =~= all.subrange(start as int, end as int));
    (total, kept)
}

} // verus!
