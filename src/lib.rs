//! Bridges named shared-memory mappings of one OS personality to files of a
//! memory-backed directory of the host, so that cooperating processes on both
//! sides observe the same memory.
//!
//! The library holds the decisions: which inputs are accepted, where each
//! backing file lives, and the session that opens backing files, creates
//! mappings, waits for the interrupt, releases the mappings and removes the
//! backing files. The program around it performs each requested action and
//! reports back what happened.
use vstd::prelude::*;

pub mod path;
pub mod request;
pub mod session;
pub mod laws;

verus! {

/// The directory whose files back the mappings.
pub const TMPFS_PATH: &'static str = "/dev/shm/";

/// The directory that `find_shm_dir` yields, as characters.
pub open spec fn shm_dir_spec() -> Seq<char> {
    TMPFS_PATH@
}

/// The memory-backed directory that holds the backing files: the standard
/// tmpfs mount point.
pub fn find_shm_dir() -> (r: String)
    ensures
        r@ == shm_dir_spec(),
{
    String::from_str(TMPFS_PATH)
}

} // verus!
