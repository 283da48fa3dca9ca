//! Locates an executable by name the way a shell does: the directories named
//! by the PATH variable are searched in order, and the first entry that is a
//! regular file and executable by the current user wins.
//!
//! The search itself is pure: it runs over plain data that the caller gathers
//! from the environment and the filesystem (the PATH value as bytes, and one
//! listing per directory). Reading the environment, listing directories and
//! probing permissions are left to the embedding program.

pub mod laws;
pub mod path_list;
pub mod search;
