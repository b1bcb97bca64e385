//! Liveness oracle: whether the operating system currently has a process
//! with a given identifier. The answer is the environment's, so nothing can
//! be promised of it; the controller's decision rules take it as an input
//! and are verified for either answer.

use vstd::prelude::*;

verus! {

/// Relies on std::path::Path::exists: `/proc/<pid>` is present exactly
/// while a process with that identifier is running; a nonexistent pid is a
/// normal `false`, never an error.
#[verifier::external_body]
pub fn process_exists(pid: u32) -> bool {
    let path = format!("/proc/{}", pid);
    std::path::Path::new(&path).exists()
}

} // verus!
