//! What holds of every search: the laws of the resolver, stated and proved
//! over the same spec functions that the executable functions' contracts
//! use.

use vstd::prelude::*;
use crate::search::Directory;
use crate::search::Entry;
use crate::search::dir_hit;
use crate::search::entry_matches;
use crate::search::first_hit;
use crate::search::search_hit;
use crate::search::search_result;
use crate::search::spec_join;
use crate::search::EXECUTE_BITS;

verus! {

/// What `first_hit` settles on: a hit is a matching entry of the listing,
/// and where there is no hit, no entry of the listing matches.
proof fn lemma_first_hit_characterizes(name: Seq<u8>, entries: Seq<Entry>)
    ensures
        match first_hit(name, entries) {
            Some(e) => entry_matches(name, e) && exists|k: int|
                0 <= k < entries.len() && entries[k] == e,
            None => forall|k: int| 0 <= k < entries.len() ==> !entry_matches(name, entries[k]),
        },
    decreases entries.len(),
{
    if entries.len() == 0 {
    } else if entry_matches(name, entries[0]) {
    } else {
        lemma_first_hit_characterizes(name, entries.drop_first());
        match first_hit(name, entries.drop_first()) {
            Some(e) => {
                let k = choose|k: int|
                    0 <= k < entries.drop_first().len() && entries.drop_first()[k] == e;
                assert(entries[k + 1] == e);
            },
            None => {
                assert forall|k: int|
                    0 <= k < entries.len() implies !entry_matches(name, entries[k]) by {
                    if k >= 1 {
                        assert(entries.drop_first()[k - 1] == entries[k]);
                    }
                }
            },
        }
    }
}

/// The first directory in PATH order wins: when a directory has a matching
/// entry and no directory before it has one, the search settles on that
/// directory's hit. In particular, for a name present and executable in two
/// directories, the result comes from the one listed first.
pub proof fn lemma_first_dir_wins(name: Seq<u8>, dirs: Seq<Directory>, i: int)
    requires
        0 <= i < dirs.len(),
        dir_hit(name, dirs[i]) is Some,
        forall|k: int| 0 <= k < i ==> dir_hit(name, dirs[k]) is None,
    ensures
        match dir_hit(name, dirs[i]) {
            Some(e) => search_hit(name, dirs) == Some((dirs[i].path@, e)) && search_result(
                name,
                dirs,
            ) == Some(spec_join(dirs[i].path@, e.name@)),
            None => true,
        },
    decreases i,
{
    if i == 0 {
    } else {
        assert(dir_hit(name, dirs[0]) is None);
        assert(dirs.drop_first()[i - 1] == dirs[i]);
        assert forall|k: int| 0 <= k < i - 1 implies dir_hit(
            name,
            dirs.drop_first()[k],
        ) is None by {
            assert(dirs.drop_first()[k] == dirs[k + 1]);
        }
        lemma_first_dir_wins(name, dirs.drop_first(), i - 1);
    }
}

/// What the search settles on always qualifies: the chosen entry's name
/// equals the searched name byte for byte, the entry is a regular file (so
/// a directory entry of type directory is never returned), at least one
/// execute permission bit is set (so a file lacking all of them is never
/// returned), and the OS-level probe succeeded.
pub proof fn lemma_hit_qualifies(name: Seq<u8>, dirs: Seq<Directory>)
    ensures
        match search_hit(name, dirs) {
            Some(hit) => hit.1.name@ == name && hit.1.is_file && (hit.1.mode & EXECUTE_BITS) != 0
                && hit.1.access_ok,
            None => true,
        },
    decreases dirs.len(),
{
    if dirs.len() == 0 {
    } else {
        match dir_hit(name, dirs[0]) {
            Some(e) => {
                match dirs[0].entries {
                    Some(entries) => {
                        lemma_first_hit_characterizes(name, entries@);
                    },
                    None => {},
                }
            },
            None => {
                lemma_hit_qualifies(name, dirs.drop_first());
            },
        }
    }
}

/// Whether some entry of `dir`'s listing carries `name` as its file name,
/// executable or not. An unlistable directory lists no names.
pub open spec fn dir_lists_name(name: Seq<u8>, dir: Directory) -> bool {
    match dir.entries {
        Some(entries) => exists|j: int| 0 <= j < entries@.len() && entries@[j].name@ == name,
        None => false,
    }
}

/// Absence: a name that no directory of the search path lists — among them
/// every directory that could not be listed at all — resolves to nothing.
pub proof fn lemma_absent(name: Seq<u8>, dirs: Seq<Directory>)
    requires
        forall|i: int| 0 <= i < dirs.len() ==> !dir_lists_name(name, dirs[i]),
    ensures
        search_result(name, dirs) is None,
    decreases dirs.len(),
{
    if dirs.len() == 0 {
    } else {
        assert(!dir_lists_name(name, dirs[0]));
        match dirs[0].entries {
            Some(entries) => {
                lemma_first_hit_characterizes(name, entries@);
                match first_hit(name, entries@) {
                    Some(e) => {
                        let k = choose|k: int|
                            0 <= k < entries@.len() && entries@[k] == e;
                        assert(entries@[k].name@ == name);
                        assert(false);
                    },
                    None => {},
                }
            },
            None => {},
        }
        assert forall|k: int| 0 <= k < dirs.drop_first().len() implies !dir_lists_name(
            name,
            dirs.drop_first()[k],
        ) by {
            assert(dirs.drop_first()[k] == dirs[k + 1]);
        }
        lemma_absent(name, dirs.drop_first());
    }
}

/// Repeating a search changes nothing: with the name, the PATH value and
/// the filesystem state (as captured in the listings) unchanged, any two
/// results that the resolver's contract admits are equal.
pub proof fn lemma_search_deterministic(
    name: Seq<u8>,
    dirs: Seq<Directory>,
    r1: Option<Seq<u8>>,
    r2: Option<Seq<u8>>,
)
    requires
        r1 == search_result(name, dirs),
        r2 == search_result(name, dirs),
    ensures
        r1 == r2,
{
}

} // verus!
