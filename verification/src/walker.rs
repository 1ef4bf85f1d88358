//! The bounded directory walk: which directories are entered, which entries
//! are removed, and in what order pending work is handed out.
//!
//! The walker holds no file handles. The caller pops a pending directory,
//! lists it, and feeds each entry back in; the walker decides whether that
//! entry is descended into, removed, or left alone, and keeps the queue.
//! `dir_visited` and `file_removed` state the same rules over the whole tree,
//! and the lemmas at the end relate them to the ignore list and the ceiling.

use vstd::prelude::*;
use crate::ignore::is_ignored;
use crate::ignore::lemma_clone_path;
use crate::ignore::should_ignore;

verus! {

/// A pending directory: its absolute path as components, and how many levels
/// below the walk's root it lies.
#[derive(Debug)]
pub struct SearchItem {
    pub path: Vec<String>,
    pub depth: usize,
}

/// What the walk does with one directory entry.
#[derive(Clone, Copy, Debug, PartialEq, Eq, Structural)]
pub enum EntryAction {
    /// A directory below the ceiling and outside the ignore list: queue it.
    Descend,
    /// An entry named like a target: remove it.
    Remove,
    /// Anything else: leave it alone.
    Skip,
}

/// How a failed directory listing is treated.
#[derive(Clone, Copy, Debug, PartialEq, Eq, Structural)]
pub enum ListingFailure {
    /// The root itself could not be listed: nothing was swept, the run fails.
    FatalRoot,
    /// A directory deeper in the tree could not be listed: that subtree is
    /// skipped and the walk goes on.
    SubtreeSkipped,
}

/// Whether the walk enters the directory `rel` levels below the root: each
/// level along the way must stay within the depth ceiling and escape the
/// ignore list. The root itself (empty `rel`) is always entered, and is never
/// held against the ignore list.
pub open spec fn dir_visited(
    root: Seq<Seq<char>>,
    rel: Seq<Seq<char>>,
    ignores: Seq<Seq<Seq<char>>>,
    max_depth: nat,
) -> bool
    decreases rel.len(),
{
    if rel.len() == 0 {
        true
    } else {
        &&& rel.len() <= max_depth
        &&& dir_visited(root, rel.drop_last(), ignores, max_depth)
        &&& !is_ignored(ignores, root + rel)
    }
}

/// Whether the walk removes the file `rel` (components below the root): its
/// directory is entered and its name is one of the targets. The depth ceiling
/// binds directories only, never the files inside an entered one.
pub open spec fn file_removed(
    root: Seq<Seq<char>>,
    rel: Seq<Seq<char>>,
    targets: Seq<Seq<char>>,
    ignores: Seq<Seq<Seq<char>>>,
    max_depth: nat,
) -> bool {
    &&& rel.len() >= 1
    &&& dir_visited(root, rel.drop_last(), ignores, max_depth)
    &&& targets.contains(rel.last())
}

/// Whether `items` holds a string whose characters equal those of `s`.
pub fn contains_string(items: &Vec<String>, s: &String) -> (r: bool)
    ensures
        r == items.deep_view().contains(s@),
{
    let mut k: usize = 0;
    while k < items.len()
        invariant
            k <= items.len(),
            forall|j: int| 0 <= j < k ==> items.deep_view()[j] != s@,
        decreases items.len() - k,
    {
        if items[k] == *s {
            proof {
                assert(items.deep_view()[k as int] == s@);
            }
            return true;
        }
        k += 1;
    }
    false
}

/// The traversal state: the configuration of the sweep and the queue of
/// directories still to list.
#[derive(Debug)]
pub struct TreeWalker {
    root: Vec<String>,
    targets: Vec<String>,
    ignores: Vec<Vec<String>>,
    max_depth: usize,
    pending: Vec<SearchItem>,
}

impl TreeWalker {
    /// The components of the directory the walk starts from.
    pub closed spec fn spec_root(&self) -> Seq<Seq<char>> {
        self.root.deep_view()
    }

    /// The filenames whose bearers are removed.
    pub closed spec fn spec_targets(&self) -> Seq<Seq<char>> {
        self.targets.deep_view()
    }

    /// The component-suffix entries naming directories to skip.
    pub closed spec fn spec_ignores(&self) -> Seq<Seq<Seq<char>>> {
        self.ignores.deep_view()
    }

    /// The depth ceiling: how many levels below the root directories may lie
    /// and still be entered.
    pub closed spec fn spec_max_depth(&self) -> nat {
        self.max_depth as nat
    }

    /// The directories still waiting to be listed.
    pub closed spec fn spec_pending(&self) -> Seq<SearchItem> {
        self.pending@
    }

    /// The configuration of the sweep, unchanged across the walk.
    pub open spec fn same_config(&self, other: &TreeWalker) -> bool {
        &&& self.spec_root() == other.spec_root()
        &&& self.spec_targets() == other.spec_targets()
        &&& self.spec_ignores() == other.spec_ignores()
        &&& self.spec_max_depth() == other.spec_max_depth()
    }

    /// A pending directory the walk may enter: it lies `depth` levels below
    /// the root, and the walk's rules let every level on the way down be
    /// entered.
    pub open spec fn item_wf(&self, it: SearchItem) -> bool {
        &&& it.path.deep_view().len() == self.spec_root().len() + it.depth
        &&& it.path.deep_view().take(self.spec_root().len() as int) == self.spec_root()
        &&& it.depth <= self.spec_max_depth()
        &&& dir_visited(
            self.spec_root(),
            it.path.deep_view().skip(self.spec_root().len() as int),
            self.spec_ignores(),
            self.spec_max_depth(),
        )
    }

    /// Every queued directory is one the walk may enter.
    pub open spec fn wf(&self) -> bool {
        forall|i: int|
            0 <= i < self.spec_pending().len() ==> self.item_wf(
                #[trigger] self.spec_pending()[i],
            )
    }

    /// A walker ready to sweep the tree under `root` for files named in
    /// `targets`, skipping directories matched by `ignores` and entering
    /// directories at most `max_depth` levels below the root.
    pub fn new(
        root: Vec<String>,
        targets: Vec<String>,
        ignores: Vec<Vec<String>>,
        max_depth: usize,
    ) -> (w: TreeWalker)
        ensures
            w.wf(),
            w.spec_root() == root.deep_view(),
            w.spec_targets() == targets.deep_view(),
            w.spec_ignores() == ignores.deep_view(),
            w.spec_max_depth() == max_depth as nat,
            w.spec_pending().len() == 1,
            w.spec_pending()[0].path.deep_view() == root.deep_view(),
            w.spec_pending()[0].depth == 0,
    {
        let seed = root.clone();
        proof {
            lemma_clone_path(&root, &seed);
        }
        let mut pending: Vec<SearchItem> = Vec::new();
        pending.push(SearchItem { path: seed, depth: 0 });
        let w = TreeWalker { root, targets, ignores, max_depth, pending };
        proof {
            assert(w.spec_pending()[0].path.deep_view().skip(w.spec_root().len() as int)
                =~= Seq::<Seq<char>>::empty());
            assert(w.spec_pending()[0].path.deep_view().take(w.spec_root().len() as int)
                =~= w.spec_root());
        }
        w
    }

    /// Hands out the next pending directory, most recently queued first;
    /// `None` once the walk is complete. The caller lists the directory and
    /// feeds each entry back through `handle_entry`.
    pub fn pop_pending(&mut self) -> (r: Option<SearchItem>)
        requires
            old(self).wf(),
        ensures
            final(self).wf(),
            final(self).same_config(old(self)),
            old(self).spec_pending().len() == 0 ==> r is None && final(self).spec_pending()
                == old(self).spec_pending(),
            old(self).spec_pending().len() > 0 ==> {
                &&& r == Some(old(self).spec_pending().last())
                &&& final(self).spec_pending() == old(self).spec_pending().drop_last()
                &&& final(self).item_wf(old(self).spec_pending().last())
            },
    {
        let r = self.pending.pop();
        proof {
            if old(self).spec_pending().len() > 0 {
                assert(old(self).item_wf(old(self).spec_pending().last()));
            }
        }
        r
    }

    /// Decides one entry of the directory `dir` (which must have come from
    /// `pop_pending`): a subdirectory below the ceiling and outside the ignore
    /// list is queued and `Descend` returned; otherwise an entry named like a
    /// target is `Remove`; everything else is `Skip`. A `Remove` inside an
    /// entered directory is exactly a removal of the model: `file_removed`
    /// holds of the entry's path below the root.
    pub fn handle_entry(&mut self, dir: &SearchItem, name: String, is_dir: bool) -> (a:
        EntryAction)
        requires
            old(self).wf(),
            old(self).item_wf(*dir),
        ensures
            final(self).wf(),
            final(self).same_config(old(self)),
            (a is Descend) <==> (is_dir && dir.depth < old(self).spec_max_depth()
                && !is_ignored(old(self).spec_ignores(), dir.path.deep_view().push(name@))),
            (a is Remove) <==> (!(a is Descend) && old(self).spec_targets().contains(name@)),
            a is Descend ==> {
                &&& final(self).spec_pending() == old(self).spec_pending().push(
                    final(self).spec_pending().last(),
                )
                &&& final(self).spec_pending().last().path.deep_view()
                    == dir.path.deep_view().push(name@)
                &&& final(self).spec_pending().last().depth == dir.depth + 1
            },
            !(a is Descend) ==> final(self).spec_pending() == old(self).spec_pending(),
            a is Remove ==> file_removed(
                old(self).spec_root(),
                dir.path.deep_view().skip(old(self).spec_root().len() as int).push(name@),
                old(self).spec_targets(),
                old(self).spec_ignores(),
                old(self).spec_max_depth(),
            ),
    {
        if is_dir && dir.depth < self.max_depth {
            let mut child_path = dir.path.clone();
            proof {
                lemma_clone_path(&dir.path, &child_path);
            }
            child_path.push(name.clone());
            proof {
                assert(child_path.deep_view() =~= dir.path.deep_view().push(name@));
            }
            if !should_ignore(&self.ignores, &child_path) {
                let child = SearchItem { path: child_path, depth: dir.depth + 1 };
                proof {
                    let rootlen = self.spec_root().len() as int;
                    let crel = child.path.deep_view().skip(rootlen);
                    let drel = dir.path.deep_view().skip(rootlen);
                    assert(child.path.deep_view().take(rootlen) =~= self.spec_root());
                    assert(crel =~= drel.push(name@));
                    assert(crel.drop_last() =~= drel);
                    assert(self.spec_root() + crel =~= child.path.deep_view());
                    assert(self.item_wf(child));
                }
                self.pending.push(child);
                proof {
                    assert forall|i: int|
                        0 <= i < self.spec_pending().len() implies self.item_wf(
                        #[trigger] self.spec_pending()[i],
                    ) by {
                        if i < old(self).spec_pending().len() {
                            assert(old(self).item_wf(old(self).spec_pending()[i]));
                        }
                    }
                }
                return EntryAction::Descend;
            }
        }
        let remove = contains_string(&self.targets, &name);
        proof {
            if old(self).spec_targets().contains(name@) {
                let rootlen = old(self).spec_root().len() as int;
                let frel = dir.path.deep_view().skip(rootlen).push(name@);
                assert(frel.drop_last() =~= dir.path.deep_view().skip(rootlen));
                assert(frel.last() == name@);
            }
        }
        if remove {
            EntryAction::Remove
        } else {
            EntryAction::Skip
        }
    }

    /// How a failed listing of `dir` is treated: failure on the root itself is
    /// fatal, failure deeper in the tree only skips that subtree.
    pub fn classify_listing_failure(&self, dir: &SearchItem) -> (e: ListingFailure)
        ensures
            (e is FatalRoot) <==> dir.depth == 0,
    {
        if dir.depth == 0 {
            ListingFailure::FatalRoot
        } else {
            ListingFailure::SubtreeSkipped
        }
    }
}

/// An entered directory clears every rule along the way: each of its prefixes
/// stays within the ceiling and off the ignore list.
proof fn lemma_visited_prefix(
    root: Seq<Seq<char>>,
    rel: Seq<Seq<char>>,
    ignores: Seq<Seq<Seq<char>>>,
    max_depth: nat,
    j: int,
)
    requires
        dir_visited(root, rel, ignores, max_depth),
        1 <= j <= rel.len(),
    ensures
        !is_ignored(ignores, root + rel.take(j)),
        rel.len() <= max_depth,
    decreases rel.len(),
{
    if j == rel.len() {
        assert(rel.take(j) =~= rel);
    } else {
        lemma_visited_prefix(root, rel.drop_last(), ignores, max_depth, j);
        assert(rel.drop_last().take(j) =~= rel.take(j));
    }
}

/// No file under an ignored directory is removed, whatever its name: once any
/// directory on the way down (prefix `rel.take(j)` of the file's path) is
/// ignored, the walk never reaches the file.
pub proof fn lemma_ignored_subtree_untouched(
    root: Seq<Seq<char>>,
    rel: Seq<Seq<char>>,
    targets: Seq<Seq<char>>,
    ignores: Seq<Seq<Seq<char>>>,
    max_depth: nat,
    j: int,
)
    requires
        1 <= j <= rel.len() - 1,
        is_ignored(ignores, root + rel.take(j)),
    ensures
        !file_removed(root, rel, targets, ignores, max_depth),
{
    if file_removed(root, rel, targets, ignores, max_depth) {
        lemma_visited_prefix(root, rel.drop_last(), ignores, max_depth, j);
        assert(rel.drop_last().take(j) =~= rel.take(j));
    }
}

/// Directories beyond the depth ceiling are never entered, and no file inside
/// one is removed: the tree below the ceiling stays untouched.
pub proof fn lemma_depth_ceiling(
    root: Seq<Seq<char>>,
    rel: Seq<Seq<char>>,
    targets: Seq<Seq<char>>,
    ignores: Seq<Seq<Seq<char>>>,
    max_depth: nat,
)
    ensures
        rel.len() > max_depth ==> !dir_visited(root, rel, ignores, max_depth),
        rel.len() - 1 > max_depth ==> !file_removed(root, rel, targets, ignores, max_depth),
{
    if rel.len() >= 1 && rel.len() - 1 > max_depth && file_removed(
        root,
        rel,
        targets,
        ignores,
        max_depth,
    ) {
        lemma_visited_prefix(root, rel.drop_last(), ignores, max_depth, 1);
    }
}

/// Every file within the ceiling whose name is a target and whose enclosing
/// directories are all off the ignore list is removed.
pub proof fn lemma_matching_file_removed(
    root: Seq<Seq<char>>,
    rel: Seq<Seq<char>>,
    targets: Seq<Seq<char>>,
    ignores: Seq<Seq<Seq<char>>>,
    max_depth: nat,
)
    requires
        rel.len() >= 1,
        rel.len() - 1 <= max_depth,
        targets.contains(rel.last()),
        forall|j: int| 1 <= j <= rel.len() - 1 ==> !is_ignored(ignores, root + #[trigger] rel.take(j)),
    ensures
        file_removed(root, rel, targets, ignores, max_depth),
{
    let par = rel.drop_last();
    assert forall|j: int| 1 <= j <= par.len() implies !is_ignored(
        ignores,
        root + #[trigger] par.take(j),
    ) by {
        assert(par.take(j) =~= rel.take(j));
    }
    lemma_unignored_visited(root, par, ignores, max_depth);
}

/// A directory within the ceiling none of whose prefixes is ignored is
/// entered.
proof fn lemma_unignored_visited(
    root: Seq<Seq<char>>,
    rel: Seq<Seq<char>>,
    ignores: Seq<Seq<Seq<char>>>,
    max_depth: nat,
)
    requires
        rel.len() <= max_depth,
        forall|j: int| 1 <= j <= rel.len() ==> !is_ignored(ignores, root + #[trigger] rel.take(j)),
    ensures
        dir_visited(root, rel, ignores, max_depth),
    decreases rel.len(),
{
    if rel.len() > 0 {
        assert forall|j: int| 1 <= j <= rel.drop_last().len() implies !is_ignored(
            ignores,
            root + #[trigger] rel.drop_last().take(j),
        ) by {
            assert(rel.drop_last().take(j) =~= rel.take(j));
        }
        lemma_unignored_visited(root, rel.drop_last(), ignores, max_depth);
        assert(rel.take(rel.len() as int) =~= rel);
        assert(!is_ignored(ignores, root + rel));
    }
}

} // verus!
