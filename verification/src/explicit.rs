//! Removal of the caller's explicitly listed files, independent of the walk.
//!
//! The list is handed out once, in order; the caller checks each path,
//! removes it if present, and books the outcome through
//! `crate::report::record_outcome`. Nothing here consults target names,
//! ignore entries, the root, or the depth ceiling: a listed file is attempted
//! wherever it lies and whatever it is called.

use vstd::prelude::*;
use crate::ignore::is_ignored;
use crate::ignore::lemma_clone_path;
use crate::walker::file_removed;

verus! {

/// Whether the explicit pass attempts the file at `path`: exactly when it is
/// listed.
pub open spec fn explicit_attempted(files: Seq<Seq<Seq<char>>>, path: Seq<Seq<char>>) -> bool {
    files.contains(path)
}

/// Hands out the caller's explicit file list, one path at a time.
#[derive(Debug)]
pub struct ExplicitFileRemover {
    files: Vec<Vec<String>>,
    next: usize,
}

impl ExplicitFileRemover {
    /// The listed paths, as components.
    pub closed spec fn spec_files(&self) -> Seq<Seq<Seq<char>>> {
        self.files.deep_view()
    }

    /// How many listed paths have been handed out already.
    pub closed spec fn spec_next(&self) -> nat {
        self.next as nat
    }

    /// Takes the whole explicit list; every listed path will be handed out
    /// exactly once, in order.
    pub fn new(files: Vec<Vec<String>>) -> (r: ExplicitFileRemover)
        ensures
            r.spec_files() == files.deep_view(),
            r.spec_next() == 0,
    {
        ExplicitFileRemover { files, next: 0 }
    }

    /// The next listed path, or `None` once the list is exhausted. The path
    /// comes back whatever its name and wherever it lies; the caller removes
    /// the file if it exists and books the outcome.
    pub fn next_file(&mut self) -> (r: Option<Vec<String>>)
        ensures
            final(self).spec_files() == old(self).spec_files(),
            old(self).spec_next() >= old(self).spec_files().len() ==> r is None
                && final(self).spec_next() == old(self).spec_next(),
            old(self).spec_next() < old(self).spec_files().len() ==> {
                &&& r is Some
                &&& r.unwrap().deep_view() == old(self).spec_files()[old(self).spec_next() as int]
                &&& final(self).spec_next() == old(self).spec_next() + 1
                &&& explicit_attempted(old(self).spec_files(), r.unwrap().deep_view())
            },
    {
        if self.next < self.files.len() {
            let out = self.files[self.next].clone();
            proof {
                lemma_clone_path(&self.files[self.next as int], &out);
                assert(self.spec_files()[self.next as int] == out.deep_view());
            }
            self.next = self.next + 1;
            Some(out)
        } else {
            None
        }
    }
}

/// Explicit removal is unconditional on name and location: a listed path is
/// attempted even when its name matches no target, even when the walk's
/// ignore list covers its directory, and even when the walk itself would
/// never remove it.
pub proof fn lemma_explicit_unconditional(
    files: Seq<Seq<Seq<char>>>,
    k: int,
    root: Seq<Seq<char>>,
    targets: Seq<Seq<char>>,
    ignores: Seq<Seq<Seq<char>>>,
    max_depth: nat,
)
    requires
        0 <= k < files.len(),
    ensures
        explicit_attempted(files, files[k]),
        files[k].len() >= 1 && !targets.contains(files[k].last()) ==> explicit_attempted(
            files,
            files[k],
        ),
        files[k].len() >= 1 && is_ignored(ignores, files[k].drop_last()) ==> explicit_attempted(
            files,
            files[k],
        ),
        !file_removed(root, files[k], targets, ignores, max_depth) ==> explicit_attempted(
            files,
            files[k],
        ),
{
    assert(files.contains(files[k]));
}

} // verus!
