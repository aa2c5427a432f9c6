//! Putting things in the order of their names.
//!
//! Names are compared byte by byte. Things with the same name keep the order
//! in which they came.
use vstd::prelude::*;
use vstd::multiset::Multiset;

verus! {

/// Whether `a` comes before `b` in a dictionary whose letters are bytes.
pub open spec fn less(a: Seq<u8>, b: Seq<u8>) -> bool
    decreases a.len(),
{
    if b.len() == 0 {
        false
    } else if a.len() == 0 {
        true
    } else if a[0] != b[0] {
        a[0] < b[0]
    } else {
        less(a.drop_first(), b.drop_first())
    }
}

/// Nothing comes before itself.
pub proof fn lemma_less_irreflexive(a: Seq<u8>)
    ensures
        !less(a, a),
    decreases a.len(),
{
    if a.len() > 0 {
        lemma_less_irreflexive(a.drop_first());
    }
}

/// What comes before something that comes before a third comes before the
/// third.
pub proof fn lemma_less_transitive(a: Seq<u8>, b: Seq<u8>, c: Seq<u8>)
    requires
        less(a, b),
        less(b, c),
    ensures
        less(a, c),
    decreases a.len(),
{
    if a.len() > 0 && a[0] == b[0] && b[0] == c[0] {
        lemma_less_transitive(a.drop_first(), b.drop_first(), c.drop_first());
    }
}

/// Of two different names one comes before the other.
pub proof fn lemma_less_total(a: Seq<u8>, b: Seq<u8>)
    ensures
        less(a, b) || a == b || less(b, a),
    decreases a.len(),
{
    if a.len() > 0 && b.len() > 0 {
        if a[0] == b[0] {
            lemma_less_total(a.drop_first(), b.drop_first());
            if a.drop_first() == b.drop_first() {
                assert(a =~= seq![a[0]] + a.drop_first());
                assert(b =~= seq![b[0]] + b.drop_first());
            }
        }
    } else if a.len() == 0 && b.len() == 0 {
        assert(a =~= b);
    }
}

/// Whether `a` comes before `b`.
pub fn bytes_less(a: &[u8], b: &[u8]) -> (before: bool)
    ensures
        before == less(a@, b@),
{
    let mut i: usize = 0;
    assert(a@.skip(0) =~= a@);
    assert(b@.skip(0) =~= b@);
    loop
        invariant
            i <= a.len(),
            i <= b.len(),
            less(a@, b@) == less(a@.skip(i as int), b@.skip(i as int)),
        decreases a.len() - i,
    {
        if i == b.len() {
            return false;
        }
        if i == a.len() {
            return true;
        }
        assert(a@.skip(i as int)[0] == a@[i as int]);
        assert(b@.skip(i as int)[0] == b@[i as int]);
        if a[i] != b[i] {
            return a[i] < b[i];
        }
        assert(a@.skip(i as int).drop_first() =~= a@.skip(i + 1));
        assert(b@.skip(i as int).drop_first() =~= b@.skip(i + 1));
        i += 1;
    }
}

/// The bytes of each name of a list.
pub open spec fn name_bytes(names: Seq<Vec<u8>>) -> Seq<Seq<u8>> {
    names.map_values(|name: Vec<u8>| name@)
}

/// Whether the thing at place `i` goes before the thing at place `j`.
pub open spec fn goes_before(keys: Seq<Seq<u8>>, i: usize, j: usize) -> bool {
    less(keys[i as int], keys[j as int]) || (keys[i as int] == keys[j as int] && i < j)
}

/// The places in `order` are in order.
pub open spec fn in_order(keys: Seq<Seq<u8>>, order: Seq<usize>) -> bool {
    forall|a: int, b: int|
        0 <= a < b < order.len() ==> goes_before(keys, #[trigger] order[a], #[trigger] order[b])
}

/// The places `0`, `1`, and so on up to `n - 1`.
pub open spec fn places(n: nat) -> Seq<usize> {
    Seq::new(n, |i: int| i as usize)
}

/// `order` lists all places of `keys` in order. There is exactly one such
/// list.
pub open spec fn ordering(keys: Seq<Seq<u8>>, order: Seq<usize>) -> bool {
    &&& order.to_multiset() == places(keys.len()).to_multiset()
    &&& in_order(keys, order)
}

proof fn lemma_before_transitive(keys: Seq<Seq<u8>>, i: usize, j: usize, k: usize)
    requires
        goes_before(keys, i, j),
        goes_before(keys, j, k),
    ensures
        goes_before(keys, i, k),
{
    let (a, b, c) = (keys[i as int], keys[j as int], keys[k as int]);
    if less(a, b) && less(b, c) {
        lemma_less_transitive(a, b, c);
    }
}

proof fn lemma_before_total(keys: Seq<Seq<u8>>, i: usize, j: usize)
    ensures
        goes_before(keys, i, j) || i == j || goes_before(keys, j, i),
{
    lemma_less_total(keys[i as int], keys[j as int]);
}

proof fn lemma_before_irreflexive(keys: Seq<Seq<u8>>, i: usize)
    ensures
        !goes_before(keys, i, i),
{
    lemma_less_irreflexive(keys[i as int]);
}

/// `list` without its first element, as a multiset.
proof fn lemma_skip_multiset(list: Seq<usize>, i: int)
    requires
        0 <= i < list.len(),
    ensures
        list.skip(i).to_multiset() == list.skip(i + 1).to_multiset().insert(list[i]),
{
    list.skip(i + 1).to_multiset_ensures();
    assert(list.skip(i) =~= seq![list[i]] + list.skip(i + 1));
    vstd::seq_lib::lemma_multiset_commutative(seq![list[i]], list.skip(i + 1));
    assert(seq![list[i]].to_multiset() =~= Multiset::singleton(list[i])) by {
        seq![list[i]].to_multiset_ensures();
        Seq::<usize>::empty().to_multiset_ensures();
        assert(seq![list[i]] =~= Seq::<usize>::empty().push(list[i]));
    }
    assert(list.skip(i).to_multiset() =~= list.skip(i + 1).to_multiset().insert(list[i]));
}

/// Merges two lists of places, each in order and with none in common.
fn merge(names: &Vec<Vec<u8>>, left: &Vec<usize>, right: &Vec<usize>) -> (order: Vec<usize>)
    requires
        forall|i: int| 0 <= i < left@.len() ==> #[trigger] left@[i] < names@.len(),
        forall|i: int| 0 <= i < right@.len() ==> #[trigger] right@[i] < names@.len(),
        forall|i: int, j: int|
            0 <= i < left@.len() && 0 <= j < right@.len() ==> #[trigger] left@[i]
                != #[trigger] right@[j],
        in_order(name_bytes(names@), left@),
        in_order(name_bytes(names@), right@),
    ensures
        order@.to_multiset() == left@.to_multiset().add(right@.to_multiset()),
        in_order(name_bytes(names@), order@),
        forall|i: int| 0 <= i < order@.len() ==> #[trigger] order@[i] < names@.len(),
{
    let ghost keys = name_bytes(names@);
    let mut order: Vec<usize> = Vec::new();
    let mut i: usize = 0;
    let mut j: usize = 0;
    proof {
        order@.to_multiset_ensures();
        assert(left@.skip(0) =~= left@);
        assert(right@.skip(0) =~= right@);
        assert(order@.to_multiset().add(left@.skip(0).to_multiset()).add(
            right@.skip(0).to_multiset(),
        ) =~= left@.to_multiset().add(right@.to_multiset()));
    }
    while i < left.len() || j < right.len()
        invariant
            i <= left.len(),
            j <= right.len(),
            keys == name_bytes(names@),
            forall|k: int| 0 <= k < left@.len() ==> #[trigger] left@[k] < names@.len(),
            forall|k: int| 0 <= k < right@.len() ==> #[trigger] right@[k] < names@.len(),
            forall|a: int, b: int|
                0 <= a < left@.len() && 0 <= b < right@.len() ==> #[trigger] left@[a]
                    != #[trigger] right@[b],
            in_order(keys, left@),
            in_order(keys, right@),
            in_order(keys, order@),
            forall|k: int| 0 <= k < order@.len() ==> #[trigger] order@[k] < names@.len(),
            forall|a: int, b: int|
                0 <= a < order@.len() && i <= b < left@.len() ==> goes_before(
                    keys,
                    #[trigger] order@[a],
                    #[trigger] left@[b],
                ),
            forall|a: int, b: int|
                0 <= a < order@.len() && j <= b < right@.len() ==> goes_before(
                    keys,
                    #[trigger] order@[a],
                    #[trigger] right@[b],
                ),
            order@.to_multiset().add(left@.skip(i as int).to_multiset()).add(
                right@.skip(j as int).to_multiset(),
            ) == left@.to_multiset().add(right@.to_multiset()),
        decreases left.len() - i + right.len() - j,
    {
        let ghost old_order = order@;
        let from_left = if i == left.len() {
            false
        } else if j == right.len() {
            true
        } else {
            let a = names[left[i]].as_slice();
            let b = names[right[j]].as_slice();
            proof {
                assert(keys[left@[i as int] as int] == a@);
                assert(keys[right@[j as int] as int] == b@);
                lemma_before_total(keys, left@[i as int], right@[j as int]);
                lemma_less_irreflexive(a@);
                if less(a@, b@) && less(b@, a@) {
                    lemma_less_transitive(a@, b@, a@);
                }
            }
            if bytes_less(a, b) {
                true
            } else if bytes_less(b, a) {
                false
            } else {
                left[i] < right[j]
            }
        };
        proof {
            order@.to_multiset_ensures();
            if from_left {
                if j < right@.len() {
                    assert(goes_before(keys, left@[i as int], right@[j as int]));
                    assert forall|b: int| j <= b < right@.len() implies goes_before(
                        keys,
                        left@[i as int],
                        #[trigger] right@[b],
                    ) by {
                        if b > j {
                            lemma_before_transitive(
                                keys,
                                left@[i as int],
                                right@[j as int],
                                right@[b],
                            );
                        }
                    }
                }
                lemma_skip_multiset(left@, i as int);
            } else {
                if i < left@.len() {
                    assert(goes_before(keys, right@[j as int], left@[i as int]));
                    assert forall|b: int| i <= b < left@.len() implies goes_before(
                        keys,
                        right@[j as int],
                        #[trigger] left@[b],
                    ) by {
                        if b > i {
                            lemma_before_transitive(
                                keys,
                                right@[j as int],
                                left@[i as int],
                                left@[b],
                            );
                        }
                    }
                }
                lemma_skip_multiset(right@, j as int);
            }
        }
        if from_left {
            order.push(left[i]);
            i += 1;
        } else {
            order.push(right[j]);
            j += 1;
        }
        proof {
            let x = order@.last();
            assert(order@.to_multiset() =~= old_order.to_multiset().insert(x));
            assert(order@.to_multiset().add(left@.skip(i as int).to_multiset()).add(
                right@.skip(j as int).to_multiset(),
            ) =~= left@.to_multiset().add(right@.to_multiset()));
            assert forall|a: int, b: int| 0 <= a < b < order@.len() implies goes_before(
                keys,
                #[trigger] order@[a],
                #[trigger] order@[b],
            ) by {
                if b == old_order.len() {
                    assert(order@[a] == old_order[a]);
                }
            }
        }
    }
    proof {
        assert(left@.skip(i as int) =~= Seq::<usize>::empty());
        assert(right@.skip(j as int) =~= Seq::<usize>::empty());
        Seq::<usize>::empty().to_multiset_ensures();
        assert(order@.to_multiset().add(left@.skip(i as int).to_multiset()).add(
            right@.skip(j as int).to_multiset(),
        ) =~= order@.to_multiset());
    }
    order
}

/// Puts a list of different places in order.
fn sort(names: &Vec<Vec<u8>>, from: Vec<usize>) -> (order: Vec<usize>)
    requires
        forall|i: int| 0 <= i < from@.len() ==> #[trigger] from@[i] < names@.len(),
        from@.no_duplicates(),
    ensures
        order@.to_multiset() == from@.to_multiset(),
        in_order(name_bytes(names@), order@),
        forall|i: int| 0 <= i < order@.len() ==> #[trigger] order@[i] < names@.len(),
    decreases from@.len(),
{
    if from.len() <= 1 {
        return from;
    }
    let ghost whole = from@;
    let half: usize = from.len() / 2;
    let mut left = from;
    let right = left.split_off(half);
    proof {
        assert(left@ =~= whole.take(half as int));
        assert(right@ =~= whole.skip(half as int));
        assert(whole =~= left@ + right@);
        vstd::seq_lib::lemma_multiset_commutative(left@, right@);
        assert forall|i: int| 0 <= i < left@.len() implies #[trigger] left@[i] < names@.len() by {
            assert(left@[i] == whole[i]);
        }
        assert forall|i: int| 0 <= i < right@.len() implies #[trigger] right@[i] < names@.len() by {
            assert(right@[i] == whole[half + i]);
        }
    }
    let ghost before_left = left@;
    let ghost before_right = right@;
    let left = sort(names, left);
    let right = sort(names, right);
    proof {
        assert forall|i: int, j: int| 0 <= i < left@.len() && 0 <= j < right@.len() implies #[trigger] left@[i]
            != #[trigger] right@[j] by {
            left@.to_multiset_ensures();
            right@.to_multiset_ensures();
            before_left.to_multiset_ensures();
            before_right.to_multiset_ensures();
            assert(left@.contains(left@[i]));
            assert(right@.contains(right@[j]));
            assert(before_left.to_multiset().contains(left@[i]));
            assert(before_left.contains(left@[i]));
            assert(before_right.to_multiset().contains(right@[j]));
            assert(before_right.contains(right@[j]));
            let a = choose|a: int| 0 <= a < before_left.len() && before_left[a] == left@[i];
            let b = choose|b: int| 0 <= b < before_right.len() && before_right[b] == right@[j];
            assert(whole[a] == before_left[a]);
            assert(whole[half + b] == before_right[b]);
        }
    }
    merge(names, &left, &right)
}

/// The places of `names`, in the order of the names.
pub fn order_by_name(names: &Vec<Vec<u8>>) -> (order: Vec<usize>)
    ensures
        ordering(name_bytes(names@), order@),
        order@.len() == names@.len(),
        forall|i: int| 0 <= i < order@.len() ==> #[trigger] order@[i] < names@.len(),
{
    let mut all: Vec<usize> = Vec::new();
    let mut i: usize = 0;
    while i < names.len()
        invariant
            i <= names.len(),
            all@ == places(i as nat),
        decreases names.len() - i,
    {
        all.push(i);
        i += 1;
        assert(all@ =~= places(i as nat));
    }
    let ghost before = all@;
    let order = sort(names, all);
    proof {
        order@.to_multiset_ensures();
        before.to_multiset_ensures();
        assert(name_bytes(names@).len() == names@.len());
    }
    order
}

/// An ordering holds every place, and only places.
pub proof fn lemma_ordering_places(keys: Seq<Seq<u8>>, order: Seq<usize>)
    requires
        ordering(keys, order),
        keys.len() <= usize::MAX,
    ensures
        order.len() == keys.len(),
        forall|i: int| 0 <= i < order.len() ==> #[trigger] order[i] < keys.len(),
{
    let all = places(keys.len());
    order.to_multiset_ensures();
    all.to_multiset_ensures();
    assert forall|i: int| 0 <= i < order.len() implies #[trigger] order[i] < keys.len() by {
        assert(order.contains(order[i]));
        assert(all.to_multiset().contains(order[i]));
        assert(all.contains(order[i]));
    }
}

/// Lists with the same elements have the same images.
pub proof fn lemma_map_multiset<A>(x: Seq<usize>, y: Seq<usize>, f: spec_fn(usize) -> A)
    requires
        x.to_multiset() == y.to_multiset(),
    ensures
        x.map_values(f).to_multiset() == y.map_values(f).to_multiset(),
    decreases x.len(),
{
    x.to_multiset_ensures();
    y.to_multiset_ensures();
    assert(x.len() == y.len());
    if x.len() == 0 {
        assert(x =~= y);
    } else {
        let a = x.last();
        assert(x.contains(a));
        assert(y.to_multiset().contains(a));
        assert(y.contains(a));
        let k = choose|k: int| 0 <= k < y.len() && y[k] == a;
        let x1 = x.drop_last();
        let y1 = y.remove(k);
        x1.to_multiset_ensures();
        assert(x =~= x1.push(a));
        assert(x1.to_multiset() =~= x.to_multiset().remove(a));
        lemma_map_multiset(x1, y1, f);
        let fx = x.map_values(f);
        let fy = y.map_values(f);
        fy.to_multiset_ensures();
        assert(fy.remove(k) =~= y1.map_values(f));
        x1.map_values(f).to_multiset_ensures();
        assert(fx =~= x1.map_values(f).push(f(a)));
        assert(fy.contains(fy[k]));
        assert(fy.to_multiset() =~= fy.remove(k).to_multiset().insert(f(a)));
    }
}

/// There is only one ordering: two lists that both hold all places in order
/// are the same list.
pub proof fn law_ordering_is_unique(keys: Seq<Seq<u8>>, x: Seq<usize>, y: Seq<usize>)
    requires
        ordering(keys, x),
        ordering(keys, y),
    ensures
        x == y,
{
    lemma_same_order(keys, x, y);
}

proof fn lemma_same_order(keys: Seq<Seq<u8>>, x: Seq<usize>, y: Seq<usize>)
    requires
        x.to_multiset() == y.to_multiset(),
        in_order(keys, x),
        in_order(keys, y),
    ensures
        x == y,
    decreases x.len(),
{
    x.to_multiset_ensures();
    y.to_multiset_ensures();
    assert(x.len() == y.len());
    if x.len() == 0 {
        assert(x =~= y);
    } else {
        let a = x.last();
        let b = y.last();
        if a != b {
            assert(x.contains(a));
            assert(y.contains(b));
            assert(y.to_multiset().contains(a));
            assert(y.contains(a));
            assert(x.to_multiset().contains(b));
            assert(x.contains(b));
            let i = choose|i: int| 0 <= i < y.len() && y[i] == a;
            let j = choose|j: int| 0 <= j < x.len() && x[j] == b;
            assert(goes_before(keys, y[i], y[y.len() - 1]));
            assert(goes_before(keys, x[j], x[x.len() - 1]));
            lemma_before_transitive(keys, a, b, a);
            lemma_before_irreflexive(keys, a);
        }
        assert(x =~= x.drop_last().push(a));
        assert(y =~= y.drop_last().push(b));
        x.drop_last().to_multiset_ensures();
        y.drop_last().to_multiset_ensures();
        assert(x.to_multiset() =~= x.drop_last().to_multiset().insert(a));
        assert(y.to_multiset() =~= y.drop_last().to_multiset().insert(b));
        assert(x.drop_last().to_multiset() =~= x.to_multiset().remove(a));
        assert(y.drop_last().to_multiset() =~= y.to_multiset().remove(b));
        lemma_same_order(keys, x.drop_last(), y.drop_last());
    }
}

/// Which of two names comes first is decided at the first place where they
/// differ, however far behind it is; a name comes before every longer name
/// that begins with it, and never the other way round.
pub proof fn law_the_first_difference_decides(
    common: Seq<u8>,
    x: u8,
    a: Seq<u8>,
    y: u8,
    b: Seq<u8>,
)
    ensures
        x != y ==> less(common + seq![x] + a, common + seq![y] + b) == (x < y),
        less(common, common + seq![x] + a),
        !less(common + a, common),
    decreases common.len(),
{
    let p = common + seq![x] + a;
    let q = common + seq![y] + b;
    if common.len() == 0 {
        assert(p[0] == x);
        assert(q[0] == y);
        assert(common + a =~= a);
    } else {
        let rest = common.drop_first();
        law_the_first_difference_decides(rest, x, a, y, b);
        assert(p.drop_first() =~= rest + seq![x] + a);
        assert(q.drop_first() =~= rest + seq![y] + b);
        assert((common + a).drop_first() =~= rest + a);
        assert(p[0] == common[0] && q[0] == common[0] && (common + a)[0] == common[0]);
    }
}

/// What the order of a list is: it lists every place once; no name stands
/// behind a greater one; and of two equal names the one that came first stands
/// first.
pub proof fn law_orderings_sort(keys: Seq<Seq<u8>>, order: Seq<usize>)
    requires
        ordering(keys, order),
        keys.len() <= usize::MAX,
    ensures
        order.len() == keys.len(),
        forall|i: usize| i < keys.len() ==> order.contains(i),
        forall|a: int, b: int|
            0 <= a < b < order.len() ==> {
                &&& #[trigger] order[a] != #[trigger] order[b]
                &&& order[a] < keys.len() && order[b] < keys.len()
                &&& !less(keys[order[b] as int], keys[order[a] as int])
                &&& keys[order[a] as int] == keys[order[b] as int] ==> order[a] < order[b]
            },
{
    lemma_ordering_places(keys, order);
    let all = places(keys.len());
    order.to_multiset_ensures();
    all.to_multiset_ensures();
    assert forall|i: usize| i < keys.len() implies order.contains(i) by {
        assert(all[i as int] == i);
        assert(all.contains(i));
        assert(all.to_multiset().contains(i));
        assert(order.to_multiset().contains(i));
    }
    assert forall|a: int, b: int| 0 <= a < b < order.len() implies {
        &&& #[trigger] order[a] != #[trigger] order[b]
        &&& order[a] < keys.len() && order[b] < keys.len()
        &&& !less(keys[order[b] as int], keys[order[a] as int])
        &&& keys[order[a] as int] == keys[order[b] as int] ==> order[a] < order[b]
    } by {
        assert(goes_before(keys, order[a], order[b]));
        let x = keys[order[a] as int];
        let y = keys[order[b] as int];
        lemma_less_irreflexive(x);
        lemma_less_irreflexive(y);
        if less(x, y) && less(y, x) {
            lemma_less_transitive(x, y, x);
        }
    }
}

} // verus!
