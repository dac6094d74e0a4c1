//! The set of paths, kept as a ternary search trie.

use tst::TSTSet;
use vstd::prelude::*;

verus! {

/// A set of texts in a ternary search trie.
#[verifier::external_type_specification]
#[verifier::external_body]
pub struct ExTSTSet(TSTSet);

/// The texts in `set`.
pub uninterp spec fn texts_in(set: TSTSet) -> Set<Seq<char>>;

/// The texts of a list of strings.
pub open spec fn texts(list: Seq<String>) -> Seq<Seq<char>> {
    list.map_values(|item: String| item@)
}

/// Whether `a` and `b` agree on their first `n` characters and `a` comes first from there on:
/// because it ends, or because its next character is the smaller one.
pub open spec fn splits_at(a: Seq<char>, b: Seq<char>, n: int) -> bool {
    &&& 0 <= n <= a.len()
    &&& n < b.len()
    &&& a.take(n) == b.take(n)
    &&& n == a.len() || (a[n] as int) < (b[n] as int)
}

/// Dictionary order, by the code points of the characters.
pub open spec fn before(a: Seq<char>, b: Seq<char>) -> bool {
    exists|n: int| splits_at(a, b, n)
}

/// Dictionary order in which `prefix` itself comes after all that extends it.
pub open spec fn before_with_prefix_last(prefix: Seq<char>, a: Seq<char>, b: Seq<char>) -> bool {
    a != prefix && (b == prefix || before(a, b))
}

/// Whether `list` holds each text of `set` once, in dictionary order.
pub open spec fn lists_in_order(list: Seq<Seq<char>>, set: Set<Seq<char>>) -> bool {
    &&& list.to_set() == set
    &&& forall|i: int, j: int| 0 <= i < j < list.len() ==> before(#[trigger] list[i], #[trigger] list[j])
}

/// Whether `list` holds each text of `set` that starts with `prefix` once: those that extend it
/// in dictionary order, then `prefix` itself if it is there.
pub open spec fn lists_prefix_in_order(
    list: Seq<Seq<char>>,
    set: Set<Seq<char>>,
    prefix: Seq<char>,
) -> bool {
    &&& list.to_set() == set.filter(|text: Seq<char>| prefix.is_prefix_of(text))
    &&& forall|i: int, j: int|
        0 <= i < j < list.len() ==> before_with_prefix_last(
            prefix,
            #[trigger] list[i],
            #[trigger] list[j],
        )
}

/// `tst::TSTSet::new` makes an empty set.
pub assume_specification[ TSTSet::new ]() -> (set: TSTSet)
    ensures
        texts_in(set) == Set::<Seq<char>>::empty(),
;

/// `tst::TSTSet::insert` adds a text and tells whether it is new. It panics on the empty text,
/// which is left out; it walks any other in a loop, however long it is.
pub assume_specification[ TSTSet::insert ](set: &mut TSTSet, key: &str) -> (added: bool)
    requires
        key@.len() > 0,
    ensures
        texts_in(*final(set)) == texts_in(*old(set)).insert(key@),
        added == !texts_in(*old(set)).contains(key@),
;

/// `tst::TSTSet::remove` takes a text out and tells whether it was there.
pub assume_specification[ TSTSet::remove ](set: &mut TSTSet, key: &str) -> (removed: bool)
    ensures
        texts_in(*final(set)) == texts_in(*old(set)).remove(key@),
        removed == texts_in(*old(set)).contains(key@),
;

/// Calls `tst::TSTSet::iter` and collects what it yields.
///
/// Believed: each text of the set comes once, in dictionary order.
#[verifier::external_body]
pub(crate) fn all_texts(set: &TSTSet) -> (list: Vec<String>)
    ensures
        lists_in_order(texts(list@), texts_in(*set)),
{
    set.iter().collect()
}

/// Calls `tst::TSTSet::prefix_iter` and collects what it yields.
///
/// Believed: each text of the set that starts with `prefix` comes once, those that extend it in
/// dictionary order and then `prefix` itself. With the empty prefix nothing would come; it is
/// left out.
#[verifier::external_body]
pub(crate) fn texts_with_prefix(set: &TSTSet, prefix: &str) -> (list: Vec<String>)
    requires
        prefix@.len() > 0,
    ensures
        lists_prefix_in_order(texts(list@), texts_in(*set), prefix@),
{
    set.prefix_iter(prefix).collect()
}

/// Dictionary order goes one way only, and never from a text to itself.
pub proof fn order_goes_one_way(a: Seq<char>, b: Seq<char>)
    ensures
        !(before(a, b) && before(b, a)),
        !before(a, a),
{
    if before(a, b) && before(b, a) {
        let n = choose|n: int| splits_at(a, b, n);
        let m = choose|m: int| splits_at(b, a, m);
        if n < m {
            assert(a.take(m)[n] == b.take(m)[n]);
        } else if m < n {
            assert(a.take(n)[m] == b.take(n)[m]);
        }
    }
}

/// Two lists of the same texts, each ordered the same one way, are the same list.
proof fn lemma_ordered_lists_are_equal(
    first: Seq<Seq<char>>,
    second: Seq<Seq<char>>,
    order: spec_fn(Seq<char>, Seq<char>) -> bool,
)
    requires
        first.to_set() == second.to_set(),
        forall|i: int, j: int| 0 <= i < j < first.len() ==> order(first[i], first[j]),
        forall|i: int, j: int| 0 <= i < j < second.len() ==> order(second[i], second[j]),
        forall|a: Seq<char>, b: Seq<char>| #[trigger] order(a, b) ==> !order(b, a),
    ensures
        first == second,
    decreases first.len(),
{
    if first.len() == 0 {
        if second.len() > 0 {
            assert(first.to_set().contains(second[0]));
        }
    } else {
        assert(second.to_set().contains(first[0]));
        let k = second.index_of(first[0]);
        assert(first.to_set().contains(second[0]));
        let m = first.index_of(second[0]);
        if k > 0 {
            assert(order(second[0], second[k]));
            if m > 0 {
                assert(order(first[0], first[m]));
            }
        }
        assert(first[0] == second[0]);
        let left = first.drop_first();
        let right = second.drop_first();
        assert forall|text: Seq<char>| left.to_set().contains(text) implies right.to_set().contains(
            text,
        ) by {
            let i = left.index_of(text);
            assert(first[i + 1] == text && order(first[0], first[i + 1]));
            assert(first.to_set().contains(text));
            let j = second.index_of(text);
            assert(right[j - 1] == text);
        }
        assert forall|text: Seq<char>| right.to_set().contains(text) implies left.to_set().contains(
            text,
        ) by {
            let j = right.index_of(text);
            assert(second[j + 1] == text && order(second[0], second[j + 1]));
            assert(second.to_set().contains(text));
            let i = first.index_of(text);
            assert(left[i - 1] == text);
        }
        assert(left.to_set() == right.to_set());
        lemma_ordered_lists_are_equal(left, right, order);
        assert(first == seq![first[0]] + left);
        assert(second == seq![second[0]] + right);
    }
}

/// There is only one list of a set's texts in dictionary order, and it holds no text twice.
pub proof fn ordered_list_is_unique(
    first: Seq<Seq<char>>,
    second: Seq<Seq<char>>,
    set: Set<Seq<char>>,
)
    requires
        lists_in_order(first, set),
        lists_in_order(second, set),
    ensures
        first == second,
        first.no_duplicates(),
{
    assert forall|a: Seq<char>, b: Seq<char>| #[trigger] before(a, b) implies !before(b, a) by {
        order_goes_one_way(a, b);
    }
    lemma_ordered_lists_are_equal(first, second, |a: Seq<char>, b: Seq<char>| before(a, b));
    assert forall|i: int, j: int|
        0 <= i < first.len() && 0 <= j < first.len() && i != j implies first[i] != first[j] by {
        order_goes_one_way(first[i], first[i]);
    }
}

/// There is only one list of a set's texts with a prefix in the order in which they are listed,
/// and it holds no text twice.
pub proof fn ordered_prefix_list_is_unique(
    first: Seq<Seq<char>>,
    second: Seq<Seq<char>>,
    set: Set<Seq<char>>,
    prefix: Seq<char>,
)
    requires
        lists_prefix_in_order(first, set, prefix),
        lists_prefix_in_order(second, set, prefix),
    ensures
        first == second,
        first.no_duplicates(),
{
    let order = |a: Seq<char>, b: Seq<char>| before_with_prefix_last(prefix, a, b);
    assert forall|a: Seq<char>, b: Seq<char>| #[trigger] order(a, b) implies !order(b, a) by {
        order_goes_one_way(a, b);
    }
    lemma_ordered_lists_are_equal(first, second, order);
    assert forall|i: int, j: int|
        0 <= i < first.len() && 0 <= j < first.len() && i != j implies first[i] != first[j] by {
        order_goes_one_way(first[i], first[i]);
    }
}

} // verus!
