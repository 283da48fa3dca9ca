//! The search itself: which entry of which directory a name resolves to.

use vstd::prelude::*;
use crate::path_list::split_segments;

verus! {

/// The execute permission bits: owner, group and other.
pub const EXECUTE_BITS: u32 = 0o111;

/// What the search reads of one directory entry. The caller gathers these
/// from the filesystem; any failure while doing so (unreadable metadata, an
/// unencodable path, a failed probe) is recorded as `false` (or `0`), which
/// makes the entry not executable rather than an error.
pub struct Entry {
    /// The entry's file name, byte for byte as the directory stores it.
    pub name: Vec<u8>,
    /// Whether the entry, with symlinks followed, is a regular file.
    pub is_file: bool,
    /// The entry's permission bits, with symlinks followed.
    pub mode: u32,
    /// Whether an OS-level probe confirmed that the current effective user
    /// may execute the entry.
    pub access_ok: bool,
}

impl Entry {
    /// An entry qualifies as executable only when all three conditions hold:
    /// the OS-level probe succeeded, at least one execute permission bit is
    /// set, and the entry is a regular file.
    pub open spec fn spec_executable(self) -> bool {
        self.access_ok && (self.mode & EXECUTE_BITS) != 0 && self.is_file
    }
}

/// One directory of the search path: its name as it stood in PATH, and what
/// listing it yielded. `entries` is `None` when the directory could not be
/// listed (it does not exist, is not a directory, or may not be read); such
/// a directory never yields a match.
pub struct Directory {
    /// The directory's path, byte for byte as it stood in the PATH value.
    pub path: Vec<u8>,
    /// The directory's entries in filesystem order, or `None` when the
    /// directory could not be listed.
    pub entries: Option<Vec<Entry>>,
}

/// Whether `entry` resolves `name`: its file name equals `name` byte for
/// byte, and it qualifies as executable.
pub open spec fn entry_matches(name: Seq<u8>, entry: Entry) -> bool {
    entry.name@ == name && entry.spec_executable()
}

/// Decides `entry_matches` for one entry.
pub fn is_executable_match(name: &Vec<u8>, entry: &Entry) -> (r: bool)
    ensures
        r == entry_matches(name@, *entry),
{
    bytes_equal(&entry.name, name) && is_executable(entry)
}

/// Decides the executability predicate for one entry.
pub fn is_executable(entry: &Entry) -> (r: bool)
    ensures
        r == entry.spec_executable(),
{
    entry.access_ok && (entry.mode & EXECUTE_BITS) != 0 && entry.is_file
}

/// The byte that separates the components of a filesystem path (`/`).
pub const COMPONENT_SEPARATOR: u8 = 47;

/// The first entry of `entries`, in order, that matches `name`; `None` when
/// none does. Filesystem order is whatever order the listing came in.
pub open spec fn first_hit(name: Seq<u8>, entries: Seq<Entry>) -> Option<Entry>
    decreases entries.len(),
{
    if entries.len() == 0 {
        None
    } else if entry_matches(name, entries[0]) {
        Some(entries[0])
    } else {
        first_hit(name, entries.drop_first())
    }
}

/// The first matching entry of one directory; an unlistable directory has
/// no matches.
pub open spec fn dir_hit(name: Seq<u8>, dir: Directory) -> Option<Entry> {
    match dir.entries {
        Some(entries) => first_hit(name, entries@),
        None => None,
    }
}

/// The directory path and entry that the search settles on: the first
/// matching entry of the first directory, in PATH order, that has one.
pub open spec fn search_hit(name: Seq<u8>, dirs: Seq<Directory>) -> Option<(Seq<u8>, Entry)>
    decreases dirs.len(),
{
    if dirs.len() == 0 {
        None
    } else {
        match dir_hit(name, dirs[0]) {
            Some(entry) => Some((dirs[0].path@, entry)),
            None => search_hit(name, dirs.drop_first()),
        }
    }
}

/// `file` appended to `dir` as a path component: a separator is put between
/// them unless `dir` already ends in one.
pub open spec fn spec_join(dir: Seq<u8>, file: Seq<u8>) -> Seq<u8> {
    if dir.len() > 0 && dir.last() == COMPONENT_SEPARATOR {
        dir + file
    } else {
        dir + seq![COMPONENT_SEPARATOR] + file
    }
}

/// The path the search returns: the hit entry's name joined onto its
/// directory's path, or `None` when no directory yields a hit.
pub open spec fn search_result(name: Seq<u8>, dirs: Seq<Directory>) -> Option<Seq<u8>> {
    match search_hit(name, dirs) {
        Some((dir_path, entry)) => Some(spec_join(dir_path, entry.name@)),
        None => None,
    }
}

/// The view of an optional byte vector.
pub open spec fn opt_view(r: Option<Vec<u8>>) -> Option<Seq<u8>> {
    match r {
        Some(p) => Some(p@),
        None => None,
    }
}

/// Byte-for-byte equality of two byte vectors.
fn bytes_equal(a: &Vec<u8>, b: &Vec<u8>) -> (r: bool)
    ensures
        r == (a@ == b@),
{
    if a.len() != b.len() {
        return false;
    }
    let mut i: usize = 0;
    while i < a.len()
        invariant
            i <= a.len(),
            a@.len() == b@.len(),
            forall|k: int| 0 <= k < i ==> a@[k] == b@[k],
        decreases a.len() - i,
    {
        if a[i] != b[i] {
            return false;
        }
        i = i + 1;
    }
    proof {
        assert(a@ =~= b@);
    }
    true
}

/// Stepping a suffix: dropping the head of `s.skip(j)` gives `s.skip(j + 1)`.
proof fn lemma_skip_step<T>(s: Seq<T>, j: int)
    requires
        0 <= j < s.len(),
    ensures
        s.skip(j).len() == s.len() - j,
        s.skip(j)[0] == s[j],
        s.skip(j).drop_first() =~= s.skip(j + 1),
{
}

/// Joins a file name onto a directory path, putting a separator between
/// them unless the directory path already ends in one.
fn join_path(dir: &Vec<u8>, file: &Vec<u8>) -> (r: Vec<u8>)
    ensures
        r@ == spec_join(dir@, file@),
{
    let mut r: Vec<u8> = Vec::new();
    let mut i: usize = 0;
    while i < dir.len()
        invariant
            i <= dir.len(),
            r@ =~= dir@.take(i as int),
        decreases dir.len() - i,
    {
        let b = dir[i];
        r.push(b);
        i = i + 1;
    }
    proof {
        assert(r@ =~= dir@);
    }
    if dir.len() == 0 || dir[dir.len() - 1] != COMPONENT_SEPARATOR {
        r.push(COMPONENT_SEPARATOR);
    }
    let ghost stem = r@;
    let mut j: usize = 0;
    while j < file.len()
        invariant
            j <= file.len(),
            r@ =~= stem + file@.take(j as int),
        decreases file.len() - j,
    {
        let b = file[j];
        r.push(b);
        j = j + 1;
    }
    proof {
        assert(file@.take(file@.len() as int) =~= file@);
        if dir@.len() > 0 && dir@.last() == COMPONENT_SEPARATOR {
            assert(r@ =~= dir@ + file@);
        } else {
            assert(r@ =~= dir@ + seq![COMPONENT_SEPARATOR] + file@);
        }
    }
    r
}

/// The index of the first entry of `entries` that matches `name`, if any.
fn find_in_entries(name: &Vec<u8>, entries: &Vec<Entry>) -> (r: Option<usize>)
    ensures
        match r {
            Some(i) => i < entries@.len() && first_hit(name@, entries@) == Some(entries@[i as int]),
            None => first_hit(name@, entries@) is None,
        },
{
    let mut i: usize = 0;
    proof {
        assert(entries@.skip(0) =~= entries@);
    }
    while i < entries.len()
        invariant
            i <= entries.len(),
            first_hit(name@, entries@) == first_hit(name@, entries@.skip(i as int)),
        decreases entries.len() - i,
    {
        proof {
            lemma_skip_step(entries@, i as int);
        }
        if is_executable_match(name, &entries[i]) {
            return Some(i);
        }
        i = i + 1;
    }
    None
}

/// Searches the listed directories in order and returns the path of the
/// first matching entry of the first directory that has one; `None` when no
/// directory does.
pub fn resolve(name: &Vec<u8>, dirs: &Vec<Directory>) -> (r: Option<Vec<u8>>)
    ensures
        opt_view(r) == search_result(name@, dirs@),
{
    let mut i: usize = 0;
    proof {
        assert(dirs@.skip(0) =~= dirs@);
    }
    while i < dirs.len()
        invariant
            i <= dirs.len(),
            search_hit(name@, dirs@) == search_hit(name@, dirs@.skip(i as int)),
        decreases dirs.len() - i,
    {
        proof {
            lemma_skip_step(dirs@, i as int);
        }
        let dir = &dirs[i];
        match &dir.entries {
            Some(entries) => {
                match find_in_entries(name, entries) {
                    Some(j) => {
                        return Some(join_path(&dir.path, &entries[j].name));
                    },
                    None => {},
                }
            },
            None => {},
        }
        i = i + 1;
    }
    None
}

/// The paths of a sequence of directories, in order.
pub open spec fn dir_paths(dirs: Seq<Directory>) -> Seq<Seq<u8>> {
    dirs.map_values(|d: Directory| d.path@)
}

/// Resolves `name` against a PATH value and the listings of its
/// directories.
///
/// `path_var` is the PATH variable as read once by the caller: `None` when
/// the variable is unset or unreadable, in which case nothing is searched
/// and the result is absence. Otherwise `dirs` holds, in order, one listing
/// for each segment of the split PATH value, and the result is that of
/// `resolve` over them.
pub fn which(name: &Vec<u8>, path_var: &Option<Vec<u8>>, dirs: &Vec<Directory>) -> (r: Option<
    Vec<u8>,
>)
    requires
        match *path_var {
            Some(var) => dir_paths(dirs@) == split_segments(var@),
            None => dirs@.len() == 0,
        },
    ensures
        *path_var is None ==> r is None,
        opt_view(r) == search_result(name@, dirs@),
{
    match path_var {
        Some(_) => resolve(name, dirs),
        None => None,
    }
}

} // verus!
