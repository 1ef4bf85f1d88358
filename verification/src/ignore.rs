//! Deciding which directories the sweep must not enter.
//!
//! Paths are handled as sequences of components (one `String` per component,
//! already tilde-expanded by the caller). An ignore entry names one or more
//! trailing components: a directory is ignored exactly when its path ends,
//! component for component, with such an entry. This is not a substring
//! match, so an entry naming one folder never hits a folder whose name merely
//! contains it.

use vstd::prelude::*;
use vstd::pervasive::cloned;

verus! {

/// Cloning every component clones the path: the two vectors read the same.
pub proof fn lemma_clone_path(a: &Vec<String>, b: &Vec<String>)
    requires
        a.len() == b.len(),
        forall|i: int| #![all_triggers] 0 <= i < a.len() ==> cloned::<String>(a[i], b[i]),
    ensures
        a.deep_view() == b.deep_view(),
{
    assert forall|i: int| 0 <= i < a.len() implies a@[i] == b@[i] by {
        assert(cloned::<String>(a[i], b[i]));
    }
    assert(a.deep_view() =~= b.deep_view());
}

/// One or more trailing components of `path` equal the components of `entry`;
/// an empty entry matches nothing.
pub open spec fn suffix_match(path: Seq<Seq<char>>, entry: Seq<Seq<char>>) -> bool {
    &&& 1 <= entry.len()
    &&& entry.len() <= path.len()
    &&& path.skip(path.len() - entry.len()) == entry
}

/// A directory is ignored exactly when its path ends, component-wise, with one
/// of the ignore entries.
pub open spec fn is_ignored(ignores: Seq<Seq<Seq<char>>>, path: Seq<Seq<char>>) -> bool {
    exists|i: int| 0 <= i < ignores.len() && suffix_match(path, #[trigger] ignores[i])
}

/// Whether the final components of `path` equal `entry`, component for
/// component.
pub fn ends_with(path: &Vec<String>, entry: &Vec<String>) -> (r: bool)
    ensures
        r == suffix_match(path.deep_view(), entry.deep_view()),
{
    if entry.len() == 0 || entry.len() > path.len() {
        return false;
    }
    let off = path.len() - entry.len();
    let mut i: usize = 0;
    while i < entry.len()
        invariant
            entry.len() >= 1,
            entry.len() <= path.len(),
            off == path.len() - entry.len(),
            i <= entry.len(),
            forall|j: int| 0 <= j < i ==> path.deep_view()[off + j] == entry.deep_view()[j],
        decreases entry.len() - i,
    {
        if !(path[off + i] == entry[i]) {
            proof {
                let pd = path.deep_view();
                let ed = entry.deep_view();
                assert(pd.skip(off as int)[i as int] == pd[off + i]);
                assert(!suffix_match(pd, ed));
            }
            return false;
        }
        i += 1;
    }
    proof {
        assert(path.deep_view().skip(off as int) =~= entry.deep_view());
    }
    true
}

/// Whether `path` ends with any entry of `ignores`; such a directory is
/// skipped together with its whole subtree.
pub fn should_ignore(ignores: &Vec<Vec<String>>, path: &Vec<String>) -> (r: bool)
    ensures
        r == is_ignored(ignores.deep_view(), path.deep_view()),
{
    let mut k: usize = 0;
    while k < ignores.len()
        invariant
            k <= ignores.len(),
            forall|j: int| 0 <= j < k ==> !suffix_match(
                path.deep_view(),
                #[trigger] ignores.deep_view()[j],
            ),
        decreases ignores.len() - k,
    {
        if ends_with(path, &ignores[k]) {
            proof {
                assert(suffix_match(path.deep_view(), ignores.deep_view()[k as int]));
            }
            return true;
        }
        k += 1;
    }
    false
}

} // verus!
