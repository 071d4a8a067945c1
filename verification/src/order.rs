//! Byte strings in lexicographic order.
use vstd::prelude::*;
use vstd::relations::{sorted_by, total_ordering};

verus! {

/// Whether `a` comes before `b`, byte by byte, or equals it. A proper prefix comes first.
pub open spec fn at_most(a: Seq<u8>, b: Seq<u8>) -> bool
    decreases a.len(),
{
    if a.len() == 0 {
        true
    } else if b.len() == 0 {
        false
    } else if a[0] == b[0] {
        at_most(a.drop_first(), b.drop_first())
    } else {
        a[0] < b[0]
    }
}

/// `items`, each as often as it occurs, in ascending order.
pub open spec fn ascending(items: Seq<Seq<u8>>) -> Seq<Seq<u8>> {
    items.sort_by(|a: Seq<u8>, b: Seq<u8>| at_most(a, b))
}

/// The byte strings that `items` hold.
pub open spec fn texts(items: Seq<Vec<u8>>) -> Seq<Seq<u8>> {
    items.map_values(|item: Vec<u8>| item@)
}

proof fn lemma_at_most_reflexive(a: Seq<u8>)
    ensures
        at_most(a, a),
    decreases a.len(),
{
    if a.len() > 0 {
        lemma_at_most_reflexive(a.drop_first());
    }
}

proof fn lemma_at_most_antisymmetric(a: Seq<u8>, b: Seq<u8>)
    requires
        at_most(a, b),
        at_most(b, a),
    ensures
        a == b,
    decreases a.len(),
{
    if a.len() > 0 && b.len() > 0 {
        lemma_at_most_antisymmetric(a.drop_first(), b.drop_first());
        assert(a =~= seq![a[0]] + a.drop_first());
        assert(b =~= seq![b[0]] + b.drop_first());
    } else {
        assert(a =~= b);
    }
}

proof fn lemma_at_most_transitive(a: Seq<u8>, b: Seq<u8>, c: Seq<u8>)
    requires
        at_most(a, b),
        at_most(b, c),
    ensures
        at_most(a, c),
    decreases a.len(),
{
    if a.len() > 0 && b.len() > 0 && c.len() > 0 && a[0] == b[0] && b[0] == c[0] {
        lemma_at_most_transitive(a.drop_first(), b.drop_first(), c.drop_first());
    }
}

proof fn lemma_at_most_total(a: Seq<u8>, b: Seq<u8>)
    ensures
        at_most(a, b) || at_most(b, a),
    decreases a.len(),
{
    if a.len() > 0 && b.len() > 0 {
        lemma_at_most_total(a.drop_first(), b.drop_first());
    }
}

/// The lexicographic order is a total order.
pub proof fn lemma_order_is_total()
    ensures
        total_ordering(|a: Seq<u8>, b: Seq<u8>| at_most(a, b)),
{
    assert forall|a: Seq<u8>| at_most(a, a) by {
        lemma_at_most_reflexive(a);
    }
    assert forall|a: Seq<u8>, b: Seq<u8>| at_most(a, b) && at_most(b, a) implies a == b by {
        lemma_at_most_antisymmetric(a, b);
    }
    assert forall|a: Seq<u8>, b: Seq<u8>, c: Seq<u8>|
        at_most(a, b) && at_most(b, c) implies at_most(a, c) by {
        lemma_at_most_transitive(a, b, c);
    }
    assert forall|a: Seq<u8>, b: Seq<u8>| at_most(a, b) || at_most(b, a) by {
        lemma_at_most_total(a, b);
    }
}

/// Whether `a` and `b` agree up to some place, and there `a` ends or has the smaller byte.
pub open spec fn precedes(a: Seq<u8>, b: Seq<u8>) -> bool {
    exists|n: int| #[trigger] agree_to(a, b, n) && (n == a.len() || (n < b.len() && a[n] < b[n]))
}

/// Whether `a` and `b` agree on their first `n` bytes.
pub open spec fn agree_to(a: Seq<u8>, b: Seq<u8>, n: int) -> bool {
    &&& 0 <= n <= a.len()
    &&& n <= b.len()
    &&& forall|i: int| 0 <= i < n ==> a[i] == b[i]
}

/// The order is the lexicographic one.
pub proof fn law_order_is_lexicographic(a: Seq<u8>, b: Seq<u8>)
    ensures
        at_most(a, b) == precedes(a, b),
    decreases a.len(),
{
    if a.len() == 0 {
        assert(agree_to(a, b, 0));
    } else if b.len() == 0 {
        assert(!precedes(a, b));
    } else if a[0] != b[0] {
        assert(agree_to(a, b, 0));
        if precedes(a, b) {
            let n = choose|n: int| #[trigger]
                agree_to(a, b, n) && (n == a.len() || (n < b.len() && a[n] < b[n]));
            assert(n == 0);
        }
    } else {
        let (c, d) = (a.drop_first(), b.drop_first());
        law_order_is_lexicographic(c, d);
        if precedes(a, b) {
            let n = choose|n: int| #[trigger]
                agree_to(a, b, n) && (n == a.len() || (n < b.len() && a[n] < b[n]));
            assert(n > 0);
            assert forall|i: int| 0 <= i < n - 1 implies c[i] == d[i] by {
                assert(a[i + 1] == b[i + 1]);
            }
            assert(agree_to(c, d, n - 1));
        }
        if precedes(c, d) {
            let n = choose|n: int| #[trigger]
                agree_to(c, d, n) && (n == c.len() || (n < d.len() && c[n] < d[n]));
            assert forall|i: int| 0 <= i < n + 1 implies a[i] == b[i] by {
                if i > 0 {
                    assert(c[i - 1] == d[i - 1]);
                }
            }
            assert(agree_to(a, b, n + 1));
        }
    }
}

/// Whatever is in ascending order and holds the same items as `items` is
/// `ascending(items)`.
pub proof fn lemma_ascending_is_unique(items: Seq<Seq<u8>>, sorted: Seq<Seq<u8>>)
    requires
        forall|i: int, j: int|
            0 <= i < j < sorted.len() ==> at_most(#[trigger] sorted[i], #[trigger] sorted[j]),
        sorted.to_multiset() == items.to_multiset(),
    ensures
        sorted == ascending(items),
{
    let order = |a: Seq<u8>, b: Seq<u8>| at_most(a, b);
    lemma_order_is_total();
    items.lemma_sort_by_ensures(order);
    assert(sorted_by(sorted, order));
    vstd::seq_lib::lemma_sorted_unique(sorted, ascending(items), order);
}

/// `ascending(items)` holds the same items as `items`, in ascending order.
pub proof fn lemma_ascending(items: Seq<Seq<u8>>)
    ensures
        ascending(items).to_multiset() == items.to_multiset(),
        ascending(items).len() == items.len(),
        forall|i: int, j: int|
            0 <= i < j < items.len() ==> at_most(
                #[trigger] ascending(items)[i],
                #[trigger] ascending(items)[j],
            ),
{
    let order = |a: Seq<u8>, b: Seq<u8>| at_most(a, b);
    lemma_order_is_total();
    items.lemma_sort_by_ensures(order);
    broadcast use vstd::seq_lib::group_to_multiset_ensures;

    assert(ascending(items).to_multiset().len() == items.to_multiset().len());
    let sorted = ascending(items);
    assert forall|i: int, j: int| 0 <= i < j < items.len() implies at_most(
        #[trigger] ascending(items)[i],
        #[trigger] ascending(items)[j],
    ) by {
        assert(order(sorted[i], sorted[j]));
    }
}

/// A set is listed without repetition.
pub proof fn lemma_set_listed_once(set: Set<Seq<u8>>)
    requires
        set.finite(),
    ensures
        set.to_seq().no_duplicates(),
    decreases set.len(),
{
    if set.len() > 0 {
        let item = set.choose();
        lemma_set_listed_once(set.remove(item));
        set.remove(item).lemma_to_seq_to_set_id();
        let rest = set.remove(item).to_seq();
        assert(!rest.to_set().contains(item));
        assert(!rest.contains(item));
    }
}

/// A list that holds each item of a set once is, in ascending order, the same list as any
/// other such list.
pub proof fn lemma_ascending_of_set(items: Seq<Seq<u8>>, set: Set<Seq<u8>>)
    requires
        items.no_duplicates(),
        items.to_set() == set,
    ensures
        set.finite(),
        ascending(items) == ascending(set.to_seq()),
        items.len() == set.to_seq().len(),
        items.len() == set.len(),
{
    broadcast use vstd::seq_lib::group_to_multiset_ensures;

    items.unique_seq_to_set();
    let listed = set.to_seq();
    lemma_set_listed_once(set);
    set.lemma_to_seq_to_set_id();
    listed.unique_seq_to_set();
    items.lemma_multiset_has_no_duplicates();
    listed.lemma_multiset_has_no_duplicates();
    assert forall|item: Seq<u8>| items.to_multiset().count(item) == listed.to_multiset().count(
        item,
    ) by {
        assert(items.contains(item) == items.to_set().contains(item));
        assert(listed.contains(item) == listed.to_set().contains(item));
        assert(items.contains(item) == (items.to_multiset().count(item) > 0));
        assert(listed.contains(item) == (listed.to_multiset().count(item) > 0));
    }
    assert(items.to_multiset() =~= listed.to_multiset());
    lemma_ascending(items);
    lemma_ascending_is_unique(listed, ascending(items));
}

/// Tells whether `a` comes before `b` or equals it.
pub fn is_at_most(a: &[u8], b: &[u8]) -> (r: bool)
    ensures
        r == at_most(a@, b@),
{
    let mut i: usize = 0;
    assert(a@.skip(0) =~= a@);
    assert(b@.skip(0) =~= b@);
    while i < a.len()
        invariant
            i <= a@.len(),
            i <= b@.len(),
            at_most(a@, b@) == at_most(a@.skip(i as int), b@.skip(i as int)),
        decreases a@.len() - i,
    {
        if i >= b.len() {
            return false;
        }
        if a[i] != b[i] {
            return a[i] < b[i];
        }
        assert(a@.skip(i as int).drop_first() =~= a@.skip(i + 1));
        assert(b@.skip(i as int).drop_first() =~= b@.skip(i + 1));
        i = i + 1;
    }
    true
}

/// Puts `items` into ascending order.
pub fn sort(items: Vec<Vec<u8>>) -> (sorted: Vec<Vec<u8>>)
    ensures
        texts(sorted@) == ascending(texts(items@)),
{
    broadcast use vstd::seq_lib::group_to_multiset_ensures;

    let ghost all = texts(items@);
    let mut rest: Vec<Vec<u8>> = items;
    let mut sorted: Vec<Vec<u8>> = Vec::new();
    assert(texts(sorted@).to_multiset().add(texts(rest@).to_multiset()) =~= all.to_multiset());
    while rest.len() > 0
        invariant
            forall|i: int, j: int|
                0 <= i < j < sorted@.len() ==> at_most(
                    #[trigger] sorted@[i]@,
                    #[trigger] sorted@[j]@,
                ),
            texts(sorted@).to_multiset().add(texts(rest@).to_multiset()) == all.to_multiset(),
        decreases rest@.len(),
    {
        let ghost rest_before = texts(rest@);
        let ghost sorted_before = sorted@;
        let item: Vec<u8> = rest.pop().unwrap();
        let mut at: usize = 0;
        while at < sorted.len() && is_at_most(sorted[at].as_slice(), item.as_slice())
            invariant
                0 <= at <= sorted@.len(),
                forall|k: int| 0 <= k < at ==> at_most(#[trigger] sorted@[k]@, item@),
            decreases sorted@.len() - at,
        {
            at = at + 1;
        }
        proof {
            if at < sorted@.len() {
                lemma_at_most_total(sorted@[at as int]@, item@);
            }
            assert forall|k: int| at <= k < sorted_before.len() implies at_most(
                item@,
                #[trigger] sorted_before[k]@,
            ) by {
                if at < k {
                    lemma_at_most_transitive(item@, sorted_before[at as int]@, sorted_before[k]@);
                }
            }
        }
        let ghost text = item@;
        sorted.insert(at, item);
        proof {
            broadcast use vstd::seq_lib::group_to_multiset_ensures;

            assert(rest_before =~= texts(rest@).push(text));
            assert(texts(sorted@) =~= texts(sorted_before).insert(at as int, text));
            assert(texts(sorted@).to_multiset() == texts(sorted_before).to_multiset().insert(text));
            assert(rest_before.to_multiset() =~= texts(rest@).to_multiset().insert(text));
            assert(texts(sorted@).to_multiset().add(texts(rest@).to_multiset())
                =~= texts(sorted_before).to_multiset().add(rest_before.to_multiset()));
        }
    }
    proof {
        assert(texts(rest@) =~= Seq::empty());
        assert(texts(sorted@).to_multiset() =~= all.to_multiset());
        lemma_ascending_is_unique(all, texts(sorted@));
    }
    sorted
}

} // verus!
