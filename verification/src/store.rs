//! The ordered store: a red-black tree keyed by timestamp.
//!
//! The tree is `rbtree::RBTree`. Nothing in this file is proved: each function
//! states what the tree does and is believed. The rest of the crate is verified
//! against these statements.

use crate::ohlc::OHLC;
use rbtree::RBTree;
use vstd::prelude::*;

verus! {

/// `rbtree::RBTree`, of which Verus is told nothing but that it exists.
#[verifier::external_type_specification]
#[verifier::external_body]
#[verifier::reject_recursive_types(K)]
#[verifier::reject_recursive_types(V)]
pub struct ExRBTree<K: Ord, V>(RBTree<K, V>);

/// What a tree holds: its keys and values, in the order of an in-order walk.
pub uninterp spec fn entries(tree: RBTree<i64, OHLC>) -> Seq<(i64, OHLC)>;

/// The keys of `s` strictly increase.
pub open spec fn ascending(s: Seq<(i64, OHLC)>) -> bool {
    forall|i: int, j: int| 0 <= i < j < s.len() ==> s[i].0 < s[j].0
}

/// `s` with key `k` bound to `v`: the value is replaced where `k` is a key of
/// `s`; otherwise the pair is inserted before the first greater key. Meant for
/// an ascending `s`.
pub open spec fn put(s: Seq<(i64, OHLC)>, k: i64, v: OHLC) -> Seq<(i64, OHLC)>
    decreases s.len(),
{
    if s.len() == 0 {
        seq![(k, v)]
    } else if s.last().0 < k {
        s.push((k, v))
    } else if s.last().0 == k {
        s.drop_last().push((k, v))
    } else {
        put(s.drop_last(), k, v).push(s.last())
    }
}

/// The values of `s`, in its order.
pub open spec fn values_of(s: Seq<(i64, OHLC)>) -> Seq<OHLC> {
    Seq::new(s.len(), |i: int| s[i].1)
}

/// `RBTree::new`: the new tree holds nothing.
#[verifier::external_body]
pub(crate) fn tree_new() -> (tree: RBTree<i64, OHLC>)
    ensures
        entries(tree) == Seq::<(i64, OHLC)>::empty(),
{
    RBTree::new()
}

/// `RBTree::len`: the number of entries.
#[verifier::external_body]
pub(crate) fn tree_len(tree: &RBTree<i64, OHLC>) -> (n: usize)
    ensures
        n == entries(*tree).len(),
{
    tree.len()
}

/// `RBTree::pop_first`: removes the leftmost node and returns its pair. An
/// empty tree stays as it is and gives `None`.
#[verifier::external_body]
pub(crate) fn tree_pop_first(tree: &mut RBTree<i64, OHLC>) -> (first: Option<(i64, OHLC)>)
    ensures
        entries(*old(tree)).len() == 0 ==> first is None && entries(*final(tree)) == entries(
            *old(tree),
        ),
        entries(*old(tree)).len() > 0 ==> first == Some(entries(*old(tree))[0]) && entries(
            *final(tree),
        ) == entries(*old(tree)).drop_first(),
{
    tree.pop_first()
}

/// `RBTree::replace_or_insert`: on a tree whose keys strictly increase, the
/// node with key `k` gets the value `v`, or a new node is linked in at the
/// place the key order gives it. The value that was replaced is dropped.
#[verifier::external_body]
pub(crate) fn tree_put(tree: &mut RBTree<i64, OHLC>, k: i64, v: OHLC)
    requires
        ascending(entries(*old(tree))),
        entries(*old(tree)).len() < usize::MAX,
    ensures
        entries(*final(tree)) == put(entries(*old(tree)), k, v),
{
    let _ = tree.replace_or_insert(k, v);
}

/// `RBTree::iter`: walks the tree in order; the values are copied out.
#[verifier::external_body]
pub(crate) fn tree_values(tree: &RBTree<i64, OHLC>) -> (bars: Vec<OHLC>)
    ensures
        bars@ == values_of(entries(*tree)),
{
    tree.iter().map(|(_, v)| *v).collect()
}

} // verus!
