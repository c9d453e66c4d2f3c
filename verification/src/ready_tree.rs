//! The ordered structure behind the ready set: a red-black tree from the
//! `rbtree` crate, keyed by vruntime, holding the Waiting tasks.
//!
//! The tree is modelled by its in-order sequence of `(key, task)` pairs,
//! `tree_entries`.  The trusted items below say, and nothing here proves,
//! how the crate's operations act on that sequence; each is checked against
//! the crate's source.  Everything else about the tree — that its in-order
//! sequence is sorted by key, for one — is proved from these contracts.

use vstd::prelude::*;
use crate::task::Task;
use rbtree::RBTree;

verus! {

#[verifier::external_type_specification]
#[verifier::external_body]
#[verifier::reject_recursive_types(K)]
#[verifier::reject_recursive_types(V)]
pub struct ExRBTree<K: Ord, V>(RBTree<K, V>);

/// The in-order contents of a ready tree: its `(key, task)` pairs from the
/// leftmost node to the rightmost.
pub uninterp spec fn tree_entries(t: RBTree<u64, Task>) -> Seq<(u64, Task)>;

/// Keys never decrease along the in-order sequence.
pub open spec fn entries_sorted(s: Seq<(u64, Task)>) -> bool {
    forall|i: int, j: int| 0 <= i < j < s.len() ==> (#[trigger] s[i]).0 <= (#[trigger] s[j]).0
}

/// The index of the first entry whose key exceeds `k`, or the length if
/// there is none.  In a sorted sequence this is where an insertion of key
/// `k` lands: after every key at most `k`, before every larger one.
pub open spec fn first_gt(s: Seq<(u64, Task)>, k: u64) -> int
    decreases s.len(),
{
    if s.len() == 0 {
        0
    } else if s[0].0 > k {
        0
    } else {
        1 + first_gt(s.subrange(1, s.len() as int), k)
    }
}

/// What `tree_insert` does to the in-order sequence.
pub open spec fn tree_insert_spec(s: Seq<(u64, Task)>, k: u64, t: Task) -> Seq<(u64, Task)> {
    s.insert(first_gt(s, k), (k, t))
}

/// `first_gt` is in range, every entry before it has key at most `k`, and
/// the entry at it — if any — has a larger key.
pub proof fn lemma_first_gt(s: Seq<(u64, Task)>, k: u64)
    ensures
        0 <= first_gt(s, k) <= s.len(),
        forall|j: int| 0 <= j < first_gt(s, k) ==> (#[trigger] s[j]).0 <= k,
        first_gt(s, k) < s.len() ==> s[first_gt(s, k)].0 > k,
    decreases s.len(),
{
    if s.len() > 0 && !(s[0].0 > k) {
        let sub = s.subrange(1, s.len() as int);
        lemma_first_gt(sub, k);
        assert(forall|j: int| 0 <= j < sub.len() ==> #[trigger] sub[j] == s[j + 1]);
        assert forall|j: int| 0 <= j < first_gt(s, k) implies (#[trigger] s[j]).0 <= k by {
            if j > 0 {
                assert(sub[j - 1] == s[j]);
            }
        }
    }
}

/// Inserting at the `first_gt` position keeps the in-order sequence sorted.
pub proof fn lemma_tree_insert_sorted(s: Seq<(u64, Task)>, k: u64, t: Task)
    requires
        entries_sorted(s),
    ensures
        entries_sorted(tree_insert_spec(s, k, t)),
{
    lemma_first_gt(s, k);
    let p = first_gt(s, k);
    let s2 = tree_insert_spec(s, k, t);
    assert forall|i: int, j: int| 0 <= i < j < s2.len() implies (#[trigger] s2[i]).0 <= (#[trigger] s2[j]).0 by {
        if i < p && j < p {
            assert(s2[i] == s[i] && s2[j] == s[j]);
        } else if i < p && j == p {
            assert(s2[i] == s[i]);
        } else if i < p && j > p {
            assert(s2[i] == s[i] && s2[j] == s[j - 1]);
            if j - 1 >= p {
                assert(s[p].0 > k || p == s.len());
            }
        } else if i == p && j > p {
            assert(s2[j] == s[j - 1]);
        } else if i > p && j > p {
            assert(s2[i] == s[i - 1] && s2[j] == s[j - 1]);
        }
    }
}

/// Relies on `rbtree::RBTree::new`: the new tree is empty.
#[verifier::external_body]
pub(crate) fn tree_new() -> (t: RBTree<u64, Task>)
    ensures
        tree_entries(t) == Seq::<(u64, Task)>::empty(),
{
    RBTree::new()
}

/// Relies on `rbtree::RBTree::is_empty`: true exactly when the tree holds
/// no node.
#[verifier::external_body]
pub(crate) fn tree_is_empty(t: &RBTree<u64, Task>) -> (r: bool)
    ensures
        r == (tree_entries(*t).len() == 0),
{
    t.is_empty()
}

/// Relies on `rbtree::RBTree::insert`: the new node descends left on
/// strictly smaller keys and right otherwise, so in the in-order sequence it
/// lands after every key at most `k` and before every strictly larger key —
/// of equal keys, the earlier-inserted pair stays first.  (`insert` also
/// increments the internal length counter, hence the bound.)
#[verifier::external_body]
pub(crate) fn tree_insert(t: &mut RBTree<u64, Task>, k: u64, task: Task)
    requires
        tree_entries(*old(t)).len() < usize::MAX,
    ensures
        tree_entries(*final(t)) == tree_insert_spec(tree_entries(*old(t)), k, task),
{
    t.insert(k, task)
}

/// Relies on `rbtree::RBTree::pop_first`: removes and returns the leftmost —
/// in-order first — pair, or `None` from an empty tree.
#[verifier::external_body]
pub(crate) fn tree_pop_first(t: &mut RBTree<u64, Task>) -> (r: Option<(u64, Task)>)
    ensures
        tree_entries(*old(t)).len() == 0 ==> r is None && tree_entries(*final(t)) == tree_entries(*old(t)),
        tree_entries(*old(t)).len() > 0 ==> {
            &&& r == Some(tree_entries(*old(t))[0])
            &&& tree_entries(*final(t)) == tree_entries(*old(t)).drop_first()
        },
{
    t.pop_first()
}

} // verus!
