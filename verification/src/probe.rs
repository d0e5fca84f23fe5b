//! Filesystem probes: the existence oracle behind the resolver and the
//! notifier.  What is on disk can change between any two calls, so nothing
//! is promised about the answers; callers state what holds whichever answer
//! comes back.

use vstd::prelude::*;

verus! {

/// Relies on std::path::Path::is_file: whether the path names an existing
/// regular file right now.  The answer depends on the state of the disk, so
/// nothing is promised about it.
#[verifier::external_body]
pub(crate) fn path_is_file(p: &str) -> bool {
    std::path::Path::new(p).is_file()
}

/// Relies on std::path::Path::is_dir: whether the path names an existing
/// directory right now.  As with [`path_is_file`], nothing is promised.
#[verifier::external_body]
pub(crate) fn path_is_dir(p: &str) -> bool {
    std::path::Path::new(p).is_dir()
}

/// Relies on std::path::Path::components: the last normal component of the
/// path, the platform's notion of its final file name, with `.` segments
/// and repeated separators ignored.  `None` when the path ends in a root,
/// prefix or parent-reference component.  How a path divides into components
/// is platform-specific, so the result is not pinned down here.
#[verifier::external_body]
pub(crate) fn last_normal_component(p: &str) -> Option<String> {
    match std::path::Path::new(p).components().last() {
        Some(std::path::Component::Normal(name)) => name.to_str().map(|s| s.to_string()),
        _ => None,
    }
}

} // verus!
