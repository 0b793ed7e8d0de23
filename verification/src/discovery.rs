//! What path discovery finds in a walk, and what holds of it for every walk.

use vstd::prelude::*;

use crate::path::{is_theme_file, WalkEntry};
use crate::theme_set::{ThemeSetError, WalkFailure};

verus! {

/// The paths of the theme files among the entries of a walk, in walk order.
/// A step that failed contributes nothing.
pub open spec fn theme_paths(walk: Seq<Result<WalkEntry, walkdir::Error>>) -> Seq<String>
    decreases walk.len(),
{
    if walk.len() == 0 {
        Seq::empty()
    } else {
        let before = theme_paths(walk.drop_last());
        match walk.last() {
            Ok(entry) => if is_theme_file(entry) {
                before.push(entry.path)
            } else {
                before
            },
            Err(_) => before,
        }
    }
}

/// Whether the walk began at something that is there but is no folder: its
/// first step succeeded and did not find a directory.
pub open spec fn root_is_no_folder(walk: Seq<Result<WalkEntry, walkdir::Error>>) -> bool {
    walk.len() > 0 && walk[0] is Ok && !walk[0]->Ok_0.is_dir
}

/// Whether step `at` of the walk is its first failure.
pub open spec fn first_failure(walk: Seq<Result<WalkEntry, walkdir::Error>>, at: int) -> bool {
    &&& 0 <= at < walk.len()
    &&& walk[at] is Err
    &&& forall|j: int| 0 <= j < at ==> (#[trigger] walk[j]) is Ok
}

/// Whether a walk fails with `error`: step `at` is its first failure, and
/// `error` is the traversal error that holds what that step failed with.
pub open spec fn fails_at(
    walk: Seq<Result<WalkEntry, walkdir::Error>>,
    at: int,
    error: ThemeSetError,
) -> bool {
    first_failure(walk, at) && error == ThemeSetError::WalkDir(WalkFailure::Step(walk[at]->Err_0))
}

/// Whether step `at` of the walk is a theme file at the path `path`.
pub open spec fn found_at(walk: Seq<Result<WalkEntry, walkdir::Error>>, at: int, path: String) -> bool {
    &&& 0 <= at < walk.len()
    &&& walk[at] is Ok
    &&& is_theme_file(walk[at]->Ok_0)
    &&& walk[at]->Ok_0.path == path
}

/// A walk that meets no theme file, whatever else it meets, discovers nothing.
pub proof fn lemma_no_theme_files(walk: Seq<Result<WalkEntry, walkdir::Error>>)
    requires
        forall|i: int|
            0 <= i < walk.len() && (#[trigger] walk[i]) is Ok ==> !is_theme_file(walk[i]->Ok_0),
    ensures
        theme_paths(walk) == Seq::<String>::empty(),
    decreases walk.len(),
{
    if walk.len() > 0 {
        let init = walk.drop_last();
        assert forall|i: int| 0 <= i < init.len() && (#[trigger] init[i]) is Ok implies !is_theme_file(
            init[i]->Ok_0,
        ) by {
            assert(init[i] == walk[i]);
        }
        lemma_no_theme_files(init);
    }
}

/// Discovery is exact: a path is among the discovered ones if and only if
/// some step of the walk is a theme file at that path. Nothing else is
/// returned, and no theme file is left out, however the other entries lie
/// between them.
pub proof fn lemma_theme_paths_exact(walk: Seq<Result<WalkEntry, walkdir::Error>>, path: String)
    ensures
        theme_paths(walk).contains(path) <==> exists|at: int| #[trigger] found_at(walk, at, path),
    decreases walk.len(),
{
    if walk.len() > 0 {
        let init = walk.drop_last();
        let n = walk.len() - 1;
        let before = theme_paths(init);
        let all = theme_paths(walk);
        lemma_theme_paths_exact(init, path);
        if all.contains(path) {
            if before.contains(path) {
                let at = choose|at: int| #[trigger] found_at(init, at, path);
                assert(init[at] == walk[at]);
                assert(found_at(walk, at, path));
            } else {
                let k = choose|k: int| 0 <= k < all.len() && all[k] == path;
                if k < before.len() {
                    assert(before[k] == path);
                }
                assert(found_at(walk, n, path));
            }
        }
        if exists|at: int| #[trigger] found_at(walk, at, path) {
            let at = choose|at: int| #[trigger] found_at(walk, at, path);
            if at < n {
                assert(init[at] == walk[at]);
                assert(found_at(init, at, path));
                let k = choose|k: int| 0 <= k < before.len() && before[k] == path;
                assert(all[k] == path);
            } else {
                assert(all[before.len() as int] == path);
            }
        }
    } else {
        assert(!theme_paths(walk).contains(path));
        assert forall|at: int| !#[trigger] found_at(walk, at, path) by {}
    }
}

/// Entries that are no theme files change nothing: a walk that meets one
/// more of them discovers what it did without it.
pub proof fn lemma_other_entries_are_skipped(
    walk: Seq<Result<WalkEntry, walkdir::Error>>,
    entry: WalkEntry,
)
    requires
        !is_theme_file(entry),
    ensures
        theme_paths(walk.push(Ok(entry))) == theme_paths(walk),
{
    assert(walk.push(Ok(entry)).drop_last() =~= walk);
}

} // verus!
