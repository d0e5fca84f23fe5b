//! Classification of resolved locations into the one "open these paths"
//! notification that is sent to an already-running instance.  Opening the
//! local channel and encoding the message on the wire belong to the caller.

use crate::location::Loc;
use crate::location::PathObject;
use crate::probe::path_is_dir;
use crate::probe::path_is_file;
use crate::split::push_str_token;
use vstd::prelude::*;

verus! {

/// What a location's path is on disk at the moment it is classified.
#[derive(Clone, Copy, Debug, PartialEq, Eq, Structural)]
pub enum PathKind {
    Directory,
    File,
    Other,
}

/// The logical shape of the notification: the directories and the files to
/// open, each in the order the locations were given.  Position information
/// is not transmitted.
#[derive(Debug, Default, PartialEq, Eq)]
pub struct OpenPathsNotification {
    pub folders: Vec<String>,
    pub files: Vec<String>,
}

/// The paths among `paths` whose kind is `want`, in order.
pub open spec fn spec_paths_of_kind(
    paths: Seq<Loc>,
    kinds: Seq<PathKind>,
    want: PathKind,
) -> Seq<Seq<char>>
    decreases paths.len(),
{
    if paths.len() == 0 {
        Seq::empty()
    } else {
        let rest = spec_paths_of_kind(paths.drop_last(), kinds.drop_last(), want);
        if kinds.last() == want {
            rest + seq![paths.last().path]
        } else {
            rest
        }
    }
}

/// How many of the kinds are `want`.
pub open spec fn spec_count_kind(kinds: Seq<PathKind>, want: PathKind) -> nat
    decreases kinds.len(),
{
    if kinds.len() == 0 {
        0
    } else {
        spec_count_kind(kinds.drop_last(), want) + if kinds.last() == want {
            1nat
        } else {
            0nat
        }
    }
}

/// The notification carries exactly one entry per location of the matching
/// kind: a location whose path is neither a directory nor a file is dropped,
/// and nothing else is.
pub proof fn lemma_paths_of_kind_count(paths: Seq<Loc>, kinds: Seq<PathKind>, want: PathKind)
    requires
        paths.len() == kinds.len(),
    ensures
        spec_paths_of_kind(paths, kinds, want).len() == spec_count_kind(kinds, want),
    decreases paths.len(),
{
    if paths.len() > 0 {
        lemma_paths_of_kind_count(paths.drop_last(), kinds.drop_last(), want);
    }
}

/// Builds the notification from the locations and each path's kind as the
/// caller determined it: directories land in `folders`, files in `files`,
/// both in the given order; a location whose path is neither is dropped.
pub fn build_open_paths(paths: &Vec<PathObject>, kinds: &Vec<PathKind>) -> (r:
    OpenPathsNotification)
    requires
        kinds@.len() == paths@.len(),
    ensures
        r.folders.deep_view() == spec_paths_of_kind(paths.deep_view(), kinds@, PathKind::Directory),
        r.files.deep_view() == spec_paths_of_kind(paths.deep_view(), kinds@, PathKind::File),
{
    let mut folders: Vec<String> = Vec::new();
    let mut files: Vec<String> = Vec::new();
    let n = paths.len();
    let mut i: usize = 0;
    while i < n
        invariant
            i <= n,
            n == paths@.len(),
            kinds@.len() == n,
            folders.deep_view() =~= spec_paths_of_kind(
                paths.deep_view().take(i as int),
                kinds@.take(i as int),
                PathKind::Directory,
            ),
            files.deep_view() =~= spec_paths_of_kind(
                paths.deep_view().take(i as int),
                kinds@.take(i as int),
                PathKind::File,
            ),
        decreases n - i,
    {
        proof {
            assert(paths.deep_view().take(i as int + 1).drop_last() =~= paths.deep_view().take(
                i as int,
            ));
            assert(kinds@.take(i as int + 1).drop_last() =~= kinds@.take(i as int));
            assert(paths.deep_view().take(i as int + 1).last() == paths@[i as int].deep_view());
            assert(kinds@.take(i as int + 1).last() == kinds@[i as int]);
        }
        match kinds[i] {
            PathKind::Directory => push_str_token(&mut folders, paths[i].path.as_str()),
            PathKind::File => push_str_token(&mut files, paths[i].path.as_str()),
            PathKind::Other => (),
        }
        i = i + 1;
        proof {
            assert(folders.deep_view() =~= spec_paths_of_kind(
                paths.deep_view().take(i as int),
                kinds@.take(i as int),
                PathKind::Directory,
            ));
            assert(files.deep_view() =~= spec_paths_of_kind(
                paths.deep_view().take(i as int),
                kinds@.take(i as int),
                PathKind::File,
            ));
        }
    }
    proof {
        assert(paths.deep_view().take(n as int) =~= paths.deep_view());
        assert(kinds@.take(n as int) =~= kinds@);
    }
    OpenPathsNotification { folders, files }
}

/// Asks the filesystem what each location's path is right now.  The answers
/// depend on the state of the disk, so only their number is promised.
fn classify_paths(paths: &Vec<PathObject>) -> (kinds: Vec<PathKind>)
    ensures
        kinds@.len() == paths@.len(),
{
    let mut kinds: Vec<PathKind> = Vec::new();
    let n = paths.len();
    let mut i: usize = 0;
    while i < n
        invariant
            i <= n,
            n == paths@.len(),
            kinds@.len() == i,
        decreases n - i,
    {
        let k = if path_is_dir(paths[i].path.as_str()) {
            PathKind::Directory
        } else if path_is_file(paths[i].path.as_str()) {
            PathKind::File
        } else {
            PathKind::Other
        };
        kinds.push(k);
        i = i + 1;
    }
    kinds
}

/// Prepares the "open these paths" notification for a batch of resolved
/// locations: each location is classified on disk and lands among the
/// folders, among the files, or — when its path is neither, for instance
/// because it was deleted after it was resolved — nowhere.
pub fn open_paths_notification(paths: &Vec<PathObject>) -> (r: OpenPathsNotification)
    ensures
        exists|kinds: Seq<PathKind>|
            kinds.len() == paths@.len() && r.folders.deep_view() == spec_paths_of_kind(
                paths.deep_view(),
                kinds,
                PathKind::Directory,
            ) && r.files.deep_view() == spec_paths_of_kind(
                paths.deep_view(),
                kinds,
                PathKind::File,
            ),
{
    let kinds = classify_paths(paths);
    let r = build_open_paths(paths, &kinds);
    proof {
        assert(kinds@.len() == paths@.len() && r.folders.deep_view() == spec_paths_of_kind(
            paths.deep_view(),
            kinds@,
            PathKind::Directory,
        ) && r.files.deep_view() == spec_paths_of_kind(paths.deep_view(), kinds@, PathKind::File));
    }
    r
}

} // verus!
