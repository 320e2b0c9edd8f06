//! Finding the installable package in a directory listing. Among the
//! packages listed, the one whose path sorts first is chosen, so the choice
//! does not depend on the order in which a directory walk reports them.

use vstd::prelude::*;
use crate::paths::{is_package, is_package_path};
use crate::text::chars_of;

verus! {

/// One entry of a directory walk.
#[derive(Debug, PartialEq, Eq)]
pub struct TreeEntry {
    /// The entry's path.
    pub path: String,
    /// Whether the entry is a regular file.
    pub is_file: bool,
}

/// A [`TreeEntry`] as plain values.
pub struct TreeEntryView {
    pub path: Seq<char>,
    pub is_file: bool,
}

impl View for TreeEntry {
    type V = TreeEntryView;

    open spec fn view(&self) -> TreeEntryView {
        TreeEntryView { path: self.path@, is_file: self.is_file }
    }
}

/// A listing as plain values.
pub open spec fn listing(tree: Seq<TreeEntry>) -> Seq<TreeEntryView> {
    Seq::new(tree.len(), |i: int| tree[i]@)
}

/// The first offset at or behind `from` at which `a` and `b` differ or one
/// of them ends.
pub open spec fn agreement(a: Seq<char>, b: Seq<char>, from: int) -> int
    decreases a.len() - from,
{
    if 0 <= from < a.len() && from < b.len() && a[from] == b[from] {
        agreement(a, b, from + 1)
    } else {
        from
    }
}

/// The order of paths: character by character, by code point; a path sorts
/// before every path that it is a proper prefix of. Equal paths sort before
/// each other.
pub open spec fn sorts_before(a: Seq<char>, b: Seq<char>) -> bool {
    let k = agreement(a, b, 0);
    k == a.len() || (k < b.len() && a[k] < b[k])
}

/// Whether an entry is an installable package: a regular file with the
/// package extension.
pub open spec fn is_candidate(entry: TreeEntryView) -> bool {
    entry.is_file && is_package_path(entry.path)
}

/// `path` is the path of a package in `tree`, and no package in `tree` has a
/// path that sorts strictly before it.
pub open spec fn is_least_candidate(tree: Seq<TreeEntryView>, path: Seq<char>) -> bool {
    &&& exists|i: int| 0 <= i < tree.len() && is_candidate(#[trigger] tree[i]) && tree[i].path == path
    &&& forall|j: int| 0 <= j < tree.len() && is_candidate(#[trigger] tree[j])
        ==> sorts_before(path, tree[j].path)
}

/// The package to install from `tree`: the path that sorts first among its
/// packages, or `None` where it lists no package.
pub open spec fn located(tree: Seq<TreeEntryView>) -> Option<Seq<char>> {
    if exists|path: Seq<char>| is_least_candidate(tree, path) {
        Some(choose|path: Seq<char>| is_least_candidate(tree, path))
    } else {
        None
    }
}

/// Where two paths agree from `from` on, and what holds where they stop
/// agreeing.
pub proof fn lemma_agreement(a: Seq<char>, b: Seq<char>, from: int)
    requires
        0 <= from <= a.len(),
        from <= b.len(),
    ensures
        from <= agreement(a, b, from) <= a.len(),
        agreement(a, b, from) <= b.len(),
        forall|j: int| from <= j < agreement(a, b, from) ==> a[j] == b[j],
        agreement(a, b, from) == a.len() || agreement(a, b, from) == b.len()
            || a[agreement(a, b, from)] != b[agreement(a, b, from)],
    decreases a.len() - from,
{
    if from < a.len() && from < b.len() && a[from] == b[from] {
        lemma_agreement(a, b, from + 1);
    }
}

/// There is one offset only at which two paths stop agreeing.
pub proof fn lemma_agreement_unique(a: Seq<char>, b: Seq<char>, from: int, k: int)
    requires
        0 <= from <= k,
        k <= a.len(),
        k <= b.len(),
        forall|j: int| from <= j < k ==> a[j] == b[j],
        k == a.len() || k == b.len() || a[k] != b[k],
    ensures
        agreement(a, b, from) == k,
    decreases k - from,
{
    if from < k {
        lemma_agreement_unique(a, b, from + 1, k);
    }
}

/// Of two paths, one sorts before the other.
pub proof fn lemma_order_total(a: Seq<char>, b: Seq<char>)
    ensures
        sorts_before(a, b) || sorts_before(b, a),
{
    let k = agreement(a, b, 0);
    lemma_agreement(a, b, 0);
    lemma_agreement_unique(b, a, 0, k);
}

/// Two paths that sort before each other are the same path.
pub proof fn lemma_order_antisymmetric(a: Seq<char>, b: Seq<char>)
    requires
        sorts_before(a, b),
        sorts_before(b, a),
    ensures
        a == b,
{
    let k = agreement(a, b, 0);
    lemma_agreement(a, b, 0);
    lemma_agreement_unique(b, a, 0, k);
    assert(a =~= b);
}

/// The order of paths is transitive.
pub proof fn lemma_order_transitive(a: Seq<char>, b: Seq<char>, c: Seq<char>)
    requires
        sorts_before(a, b),
        sorts_before(b, c),
    ensures
        sorts_before(a, c),
{
    let ab = agreement(a, b, 0);
    let bc = agreement(b, c, 0);
    lemma_agreement(a, b, 0);
    lemma_agreement(b, c, 0);
    let k = if ab <= bc { ab } else { bc };
    assert forall|j: int| 0 <= j < k implies a[j] == c[j] by {
        assert(a[j] == b[j]);
        assert(b[j] == c[j]);
    }
    lemma_agreement_unique(a, c, 0, k);
}

/// A listing has one least package path at most, and `located` is it.
pub proof fn lemma_located(tree: Seq<TreeEntryView>, path: Seq<char>)
    requires
        is_least_candidate(tree, path),
    ensures
        located(tree) == Some(path),
{
    let chosen = choose|p: Seq<char>| is_least_candidate(tree, p);
    let i = choose|i: int| 0 <= i < tree.len() && is_candidate(#[trigger] tree[i]) && tree[i].path == path;
    let j = choose|j: int| 0 <= j < tree.len() && is_candidate(#[trigger] tree[j]) && tree[j].path == chosen;
    assert(sorts_before(path, tree[j].path));
    assert(sorts_before(chosen, tree[i].path));
    lemma_order_antisymmetric(path, chosen);
}

/// A listing without a package has nothing to install.
pub proof fn lemma_located_none(tree: Seq<TreeEntryView>)
    requires
        forall|j: int| 0 <= j < tree.len() ==> !is_candidate(#[trigger] tree[j]),
    ensures
        located(tree) is None,
{
}

/// What is located depends on which packages a listing holds, not on where
/// in the listing they stand: two listings with the same entries, in any
/// order, locate the same package.
pub proof fn lemma_located_any_order(a: Seq<TreeEntryView>, b: Seq<TreeEntryView>)
    requires
        a.to_multiset() == b.to_multiset(),
    ensures
        located(a) == located(b),
{
    a.to_multiset_ensures();
    b.to_multiset_ensures();
    assert forall|e: TreeEntryView| a.contains(e) <==> b.contains(e) by {
        assert(a.contains(e) <==> a.to_multiset().count(e) > 0);
        assert(b.contains(e) <==> b.to_multiset().count(e) > 0);
    }
    assert forall|p: Seq<char>| is_least_candidate(a, p) implies is_least_candidate(b, p) by {
        lemma_same_entries(a, b, p);
    }
    assert forall|p: Seq<char>| is_least_candidate(b, p) implies is_least_candidate(a, p) by {
        lemma_same_entries(b, a, p);
    }
    if exists|p: Seq<char>| is_least_candidate(a, p) {
        let p = choose|p: Seq<char>| is_least_candidate(a, p);
        lemma_located(a, p);
        lemma_located(b, p);
    } else {
        assert(located(a) is None);
        assert(located(b) is None);
    }
}

proof fn lemma_same_entries(a: Seq<TreeEntryView>, b: Seq<TreeEntryView>, path: Seq<char>)
    requires
        forall|e: TreeEntryView| a.contains(e) <==> b.contains(e),
        is_least_candidate(a, path),
    ensures
        is_least_candidate(b, path),
{
    let i = choose|i: int| 0 <= i < a.len() && is_candidate(#[trigger] a[i]) && a[i].path == path;
    assert(a.contains(a[i]));
    let at = choose|at: int| 0 <= at < b.len() && b[at] == a[i];
    assert(is_candidate(b[at]) && b[at].path == path);
    assert forall|j: int| 0 <= j < b.len() && is_candidate(#[trigger] b[j]) implies sorts_before(
        path,
        b[j].path,
    ) by {
        assert(b.contains(b[j]));
        let back = choose|back: int| 0 <= back < a.len() && a[back] == b[j];
        assert(is_candidate(a[back]));
    }
}

/// A listing with one package only locates that package, wherever in the
/// listing it stands.
pub proof fn lemma_single_package(tree: Seq<TreeEntryView>, at: int)
    requires
        0 <= at < tree.len(),
        is_candidate(tree[at]),
        forall|j: int| 0 <= j < tree.len() && j != at ==> !is_candidate(#[trigger] tree[j]),
    ensures
        located(tree) == Some(tree[at].path),
{
    lemma_agreement(tree[at].path, tree[at].path, 0);
    assert(sorts_before(tree[at].path, tree[at].path));
    lemma_located(tree, tree[at].path);
}

/// Whether path `a` sorts before path `b`, or is the same path.
pub fn comes_first(a: &Vec<char>, b: &Vec<char>) -> (r: bool)
    ensures
        r == sorts_before(a@, b@),
{
    let mut k: usize = 0;
    while k < a.len() && k < b.len() && a[k] == b[k]
        invariant
            k <= a.len(),
            k <= b.len(),
            agreement(a@, b@, 0) == agreement(a@, b@, k as int),
        decreases a.len() - k,
    {
        k = k + 1;
    }
    k == a.len() || (k < b.len() && a[k] < b[k])
}

/// The index of the package to install from `tree`: the first entry that
/// holds the path which sorts first among the packages listed.
pub fn locate_package(tree: &Vec<TreeEntry>) -> (found: Option<usize>)
    ensures
        match found {
            Some(i) => {
                &&& i < tree.len()
                &&& located(listing(tree@)) == Some(tree[i as int].path@)
                &&& is_candidate(tree[i as int]@)
                &&& forall|j: int| 0 <= j < i && is_candidate(#[trigger] tree[j]@)
                    ==> tree[j].path@ != tree[i as int].path@
            },
            None => located(listing(tree@)) is None,
        },
        found is None <==> forall|j: int| 0 <= j < tree.len() ==> !is_candidate(#[trigger] tree[j]@),
{
    let mut best: Option<usize> = None;
    let mut best_path: Vec<char> = Vec::new();
    let mut i: usize = 0;
    while i < tree.len()
        invariant
            i <= tree.len(),
            best is None ==> forall|j: int| 0 <= j < i ==> !is_candidate(#[trigger] tree[j]@),
            best matches Some(at) ==> {
                &&& at < i
                &&& best_path@ == tree[at as int].path@
                &&& is_candidate(tree[at as int]@)
                &&& forall|j: int| 0 <= j < i && is_candidate(#[trigger] tree[j]@)
                    ==> sorts_before(best_path@, tree[j].path@)
                &&& forall|j: int| 0 <= j < at && is_candidate(#[trigger] tree[j]@)
                    ==> tree[j].path@ != best_path@
            },
        decreases tree.len() - i,
    {
        let entry = &tree[i];
        if entry.is_file && is_package(entry.path.as_str()) {
            let path = chars_of(entry.path.as_str());
            let keep = match best {
                Some(_) => comes_first(&best_path, &path),
                None => false,
            };
            if !keep {
                proof {
                    lemma_agreement(path@, path@, 0);
                    assert forall|j: int| 0 <= j < i && is_candidate(#[trigger] tree[j]@) implies sorts_before(
                        path@,
                        tree[j].path@,
                    ) by {
                        lemma_order_total(best_path@, path@);
                        lemma_order_transitive(path@, best_path@, tree[j].path@);
                    }
                }
                best = Some(i);
                best_path = path;
            }
        }
        i = i + 1;
    }
    proof {
        let plain = listing(tree@);
        match best {
            Some(at) => {
                assert(plain[at as int] == tree[at as int]@);
                assert forall|j: int| 0 <= j < plain.len() && is_candidate(#[trigger] plain[j]) implies sorts_before(
                    best_path@,
                    plain[j].path,
                ) by {
                    assert(plain[j] == tree[j]@);
                }
                lemma_located(plain, best_path@);
            },
            None => {
                assert forall|j: int| 0 <= j < plain.len() implies !is_candidate(#[trigger] plain[j]) by {
                    assert(plain[j] == tree[j]@);
                }
                lemma_located_none(plain);
            },
        }
    }
    best
}

} // verus!
