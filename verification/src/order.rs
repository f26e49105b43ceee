//! A stable sort of whatever has a rank, and the order of names.
use vstd::prelude::*;
use vstd::string::*;

verus! {

/// Items that can be put in order. Two items may share a rank.
pub trait Ranked: Sized {
    /// `self` goes before `other`.
    spec fn before(self, other: Self) -> bool;

    /// Of two items at most one goes before the other.
    proof fn before_is_asymmetric(a: Self, b: Self)
        requires
            a.before(b),
        ensures
            !b.before(a),
    ;

    /// If `a` does not go before `b`, nor `b` before `c`, then `a` does not go before `c`.
    proof fn not_before_is_transitive(a: Self, b: Self, c: Self)
        requires
            !a.before(b),
            !b.before(c),
        ensures
            !a.before(c),
    ;

    /// Whether `self` goes before `other`.
    fn goes_before(&self, other: &Self) -> (first: bool)
        ensures
            first == self.before(*other),
    ;
}

/// `a` and `b` share a rank.
pub open spec fn tied<T: Ranked>(a: T, b: T) -> bool {
    !a.before(b) && !b.before(a)
}

/// Nothing in `items` stands after something that it goes before.
pub open spec fn in_order<T: Ranked>(items: Seq<T>) -> bool {
    forall|i: int, j: int|
        0 <= i < j < items.len() ==> !(#[trigger] items[j]).before(#[trigger] items[i])
}

/// The items of `items` that share the rank of `k`.
pub open spec fn tied_with<T: Ranked>(items: Seq<T>, k: T) -> Seq<T> {
    items.filter(|item: T| tied(k, item))
}

/// `output` holds the items of `input` in order, and items that share a rank
/// stand as they stood in `input`.
pub open spec fn is_stable_sort<T: Ranked>(input: Seq<T>, output: Seq<T>) -> bool {
    &&& input.to_multiset() == output.to_multiset()
    &&& in_order(output)
    &&& forall|k: T| #[trigger] tied_with(output, k) == tied_with(input, k)
}

/// Putting `x` in front of the rest, and into the sorted rest before everything
/// that does not go before it, keeps the second a stable sort of the first.
proof fn insert_keeps_stable_sort<T: Ranked>(rest: Seq<T>, sorted: Seq<T>, x: T, at: int)
    requires
        is_stable_sort(rest, sorted),
        0 <= at <= sorted.len(),
        forall|i: int| 0 <= i < at ==> (#[trigger] sorted[i]).before(x),
        at < sorted.len() ==> !sorted[at].before(x),
    ensures
        is_stable_sort(seq![x] + rest, sorted.insert(at, x)),
{
    let input = seq![x] + rest;
    let output = sorted.insert(at, x);
    let low = sorted.take(at);
    let high = sorted.skip(at);
    assert(output =~= low + (seq![x] + high));
    assert(sorted =~= low + high);

    assert(input.to_multiset() == output.to_multiset()) by {
        broadcast use vstd::seq_lib::group_to_multiset_ensures;

        assert(input =~= rest.insert(0, x));
    }

    assert forall|i: int, j: int| 0 <= i < j < output.len() implies !(
    #[trigger] output[j]).before(#[trigger] output[i]) by {
        if i < at && j == at {
            T::before_is_asymmetric(sorted[i], x);
        } else if i == at {
            if j - 1 > at {
                assert(!sorted[j - 1].before(sorted[at]));
                T::not_before_is_transitive(sorted[j - 1], sorted[at], x);
            }
        } else {
            let p = if i < at { i } else { i - 1 };
            let q = if j < at { j } else { j - 1 };
            assert(output[i] == sorted[p] && output[j] == sorted[q]);
        }
    }

    assert forall|k: T| #[trigger] tied_with(output, k) == tied_with(input, k) by {
        let pred = |item: T| tied(k, item);
        Seq::filter_distributes_over_add(low, seq![x] + high, pred);
        Seq::filter_distributes_over_add(seq![x], high, pred);
        Seq::filter_distributes_over_add(seq![x], rest, pred);
        Seq::filter_distributes_over_add(low, high, pred);
        assert(tied_with(sorted, k) == tied_with(rest, k));
        if pred(x) {
            assert forall|i: int| 0 <= i < low.len() implies !pred(#[trigger] low[i]) by {
                assert(sorted[i].before(x));
                if !low[i].before(k) {
                    T::not_before_is_transitive(low[i], k, x);
                }
            }
            filter_of_none(low, pred);
            assert(output.filter(pred) =~= seq![x].filter(pred) + high.filter(pred));
            assert(sorted.filter(pred) =~= high.filter(pred));
        } else {
            filter_of_none(seq![x], pred);
            assert(output.filter(pred) =~= sorted.filter(pred));
            assert(input.filter(pred) =~= rest.filter(pred));
        }
    }
}

proof fn filter_of_none<T>(items: Seq<T>, pred: spec_fn(T) -> bool)
    requires
        forall|i: int| 0 <= i < items.len() ==> !pred(#[trigger] items[i]),
    ensures
        items.filter(pred) =~= Seq::<T>::empty(),
    decreases items.len(),
{
    reveal(Seq::filter);
    if items.len() > 0 {
        assert forall|i: int| 0 <= i < items.drop_last().len() implies !pred(
            #[trigger] items.drop_last()[i],
        ) by {
            assert(items.drop_last()[i] == items[i]);
        }
        filter_of_none(items.drop_last(), pred);
    }
}

/// Puts `items` in order. Items that share a rank stay as they stand.
pub fn stable_sort<T: Ranked>(items: Vec<T>) -> (sorted: Vec<T>)
    ensures
        is_stable_sort(items@, sorted@),
{
    let mut rest = items;
    let mut sorted: Vec<T> = Vec::new();
    proof {
        let none = items@.skip(items@.len() as int);
        assert(none =~= sorted@);
        assert(items@.take(items@.len() as int) =~= rest@);
    }
    while rest.len() > 0
        invariant
            rest@.len() <= items@.len(),
            rest@ == items@.take(rest@.len() as int),
            is_stable_sort(items@.skip(rest@.len() as int), sorted@),
        decreases rest@.len(),
    {
        let ghost done = items@.skip(rest@.len() as int);
        let ghost before_pop = rest@;
        match rest.pop() {
            Some(x) => {
                let mut at: usize = 0;
                while at < sorted.len() && sorted[at].goes_before(&x)
                    invariant
                        at <= sorted@.len(),
                        forall|i: int| 0 <= i < at ==> (#[trigger] sorted@[i]).before(x),
                    decreases sorted@.len() - at,
                {
                    at += 1;
                }
                proof {
                    insert_keeps_stable_sort(done, sorted@, x, at as int);
                    assert(x == items@[before_pop.len() - 1]);
                    assert(items@.skip(rest@.len() as int) =~= seq![x] + done);
                    assert(rest@ =~= items@.take(rest@.len() as int));
                }
                sorted.insert(at, x);
            },
            None => {},
        }
    }
    proof {
        assert(items@.skip(0) =~= items@);
    }
    sorted
}

/// Two sequences that are rearrangements of one another hold the same items.
pub proof fn same_items<T>(a: Seq<T>, b: Seq<T>)
    requires
        a.to_multiset() == b.to_multiset(),
    ensures
        a.len() == b.len(),
        forall|x: T| a.contains(x) <==> #[trigger] b.contains(x),
{
    vstd::seq_lib::to_multiset_len(a);
    vstd::seq_lib::to_multiset_len(b);
    assert forall|x: T| a.contains(x) <==> #[trigger] b.contains(x) by {
        vstd::seq_lib::to_multiset_contains(a, x);
        vstd::seq_lib::to_multiset_contains(b, x);
    }
}

/// The first items of two ordered sequences with the same items share a rank.
proof fn first_items_tie<T: Ranked>(a: Seq<T>, b: Seq<T>)
    requires
        a.to_multiset() == b.to_multiset(),
        in_order(a),
        in_order(b),
        a.len() > 0,
        b.len() > 0,
    ensures
        tied(a[0], b[0]),
{
    same_items(a, b);
    assert(a.contains(a[0]) && b.contains(b[0]));
    assert(b.contains(a[0]));
    assert(a.contains(b[0]));
    let i = choose|i: int| 0 <= i < b.len() && b[i] == a[0];
    let j = choose|j: int| 0 <= j < a.len() && a[j] == b[0];
    if a[0].before(a[0]) {
        T::before_is_asymmetric(a[0], a[0]);
    }
    if b[0].before(b[0]) {
        T::before_is_asymmetric(b[0], b[0]);
    }
}

/// Taking the same first item off two sequences keeps their items the same.
proof fn rest_has_the_same_items<T>(a: Seq<T>, b: Seq<T>)
    requires
        a.to_multiset() == b.to_multiset(),
        a.len() > 0,
        b.len() > 0,
        a[0] == b[0],
    ensures
        a.drop_first().to_multiset() == b.drop_first().to_multiset(),
{
    broadcast use vstd::seq_lib::group_to_multiset_ensures;

    assert(a.drop_first() =~= a.remove(0));
    assert(b.drop_first() =~= b.remove(0));
}

proof fn same_ties_mean_equal<T: Ranked>(a: Seq<T>, b: Seq<T>)
    requires
        a.to_multiset() == b.to_multiset(),
        in_order(a),
        in_order(b),
        forall|k: T| #[trigger] tied_with(a, k) == tied_with(b, k),
    ensures
        a == b,
    decreases a.len(),
{
    same_items(a, b);
    if a.len() > 0 {
        first_items_tie(a, b);
        let x = a[0];
        if x.before(x) {
            T::before_is_asymmetric(x, x);
        }
        ties_start_with_first(a, x);
        ties_start_with_first(b, x);
        assert(tied_with(a, x) == tied_with(b, x));
        assert(a[0] == b[0]);
        rest_has_the_same_items(a, b);
        assert forall|k: T| #[trigger]
            tied_with(a.drop_first(), k) == tied_with(b.drop_first(), k) by {
            let pred = |item: T| tied(k, item);
            assert(tied_with(a, k) == tied_with(b, k));
            assert(a =~= seq![x] + a.drop_first());
            assert(b =~= seq![x] + b.drop_first());
            Seq::filter_distributes_over_add(seq![x], a.drop_first(), pred);
            Seq::filter_distributes_over_add(seq![x], b.drop_first(), pred);
            let head = seq![x].filter(pred);
            assert(a.drop_first().filter(pred) =~= a.filter(pred).skip(head.len() as int));
            assert(b.drop_first().filter(pred) =~= b.filter(pred).skip(head.len() as int));
        }
        same_ties_mean_equal(a.drop_first(), b.drop_first());
        assert(a =~= seq![x] + a.drop_first());
        assert(b =~= seq![x] + b.drop_first());
    } else {
        assert(a =~= b);
    }
}

/// The items tied with `x` start with the first item, where that one is tied with `x`.
proof fn ties_start_with_first<T: Ranked>(a: Seq<T>, x: T)
    requires
        a.len() > 0,
        tied(x, a[0]),
    ensures
        tied_with(a, x).len() > 0,
        tied_with(a, x)[0] == a[0],
{
    let pred = |item: T| tied(x, item);
    assert(a =~= seq![a[0]] + a.drop_first());
    Seq::filter_distributes_over_add(seq![a[0]], a.drop_first(), pred);
    assert(seq![a[0]].filter(pred) =~= seq![a[0]]) by {
        reveal(Seq::filter);
        assert(seq![a[0]].drop_last() =~= Seq::<T>::empty());
        assert(seq![a[0]].last() == a[0]);
        assert(Seq::<T>::empty().filter(pred) =~= Seq::<T>::empty());
    }
}

/// A sequence has one stable sort only.
pub proof fn stable_sort_is_unique<T: Ranked>(input: Seq<T>, a: Seq<T>, b: Seq<T>)
    requires
        is_stable_sort(input, a),
        is_stable_sort(input, b),
    ensures
        a == b,
{
    assert forall|k: T| #[trigger] tied_with(a, k) == tied_with(b, k) by {
        assert(tied_with(input, k) == tied_with(a, k));
    }
    same_ties_mean_equal(a, b);
}

/// Where no two items share a rank, the sorted sequence does not depend on the
/// order in which the items arrived.
pub proof fn stable_sort_forgets_arrival<T: Ranked>(p: Seq<T>, q: Seq<T>, a: Seq<T>, b: Seq<T>)
    requires
        p.to_multiset() == q.to_multiset(),
        forall|i: int, j: int|
            0 <= i < j < p.len() ==> !tied(#[trigger] p[i], #[trigger] p[j]),
        is_stable_sort(p, a),
        is_stable_sort(q, b),
    ensures
        a == b,
{
    assert forall|i: int, j: int| 0 <= i < j < a.len() implies !tied(
        #[trigger] a[i],
        #[trigger] a[j],
    ) by {
        untied_under_permutation(p, a, i, j);
    }
    untied_orders_are_equal(a, b);
}

/// If no two items of `p` share a rank, neither do two of a rearrangement of `p`.
proof fn untied_under_permutation<T: Ranked>(p: Seq<T>, a: Seq<T>, i: int, j: int)
    requires
        p.to_multiset() == a.to_multiset(),
        forall|i: int, j: int|
            0 <= i < j < p.len() ==> !tied(#[trigger] p[i], #[trigger] p[j]),
        0 <= i < j < a.len(),
    ensures
        !tied(a[i], a[j]),
{
    same_items(p, a);
    let x = a[i];
    let y = a[j];
    assert(a.contains(x) && a.contains(y));
    assert(p.contains(x) && p.contains(y));
    let m = choose|m: int| 0 <= m < p.len() && p[m] == x;
    let without = p.remove(m);
    assert(a.remove(i)[j - 1] == y);
    assert(a.remove(i).contains(y));
    vstd::seq_lib::to_multiset_remove(p, m);
    vstd::seq_lib::to_multiset_remove(a, i);
    same_items(without, a.remove(i));
    assert(without.contains(y));
    let n = choose|n: int| 0 <= n < without.len() && without[n] == y;
    let other = if n < m { n } else { n + 1 };
    assert(p[other] == y);
    if other < m {
        assert(!tied(p[other], p[m]));
    } else {
        assert(!tied(p[m], p[other]));
    }
}

proof fn untied_orders_are_equal<T: Ranked>(a: Seq<T>, b: Seq<T>)
    requires
        a.to_multiset() == b.to_multiset(),
        in_order(a),
        in_order(b),
        forall|i: int, j: int|
            0 <= i < j < a.len() ==> !tied(#[trigger] a[i], #[trigger] a[j]),
    ensures
        a == b,
    decreases a.len(),
{
    same_items(a, b);
    if a.len() > 0 {
        first_items_tie(a, b);
        assert(b.contains(b[0]));
        assert(a.contains(b[0]));
        let i = choose|i: int| 0 <= i < a.len() && a[i] == b[0];
        if i > 0 {
            assert(!tied(a[0], a[i]));
        }
        rest_has_the_same_items(a, b);
        untied_orders_are_equal(a.drop_first(), b.drop_first());
        assert(a =~= seq![a[0]] + a.drop_first());
        assert(b =~= seq![b[0]] + b.drop_first());
    } else {
        assert(a =~= b);
    }
}

/// `a` goes before `b` in the order of dictionaries, byte by byte.
pub open spec fn bytes_before(a: Seq<u8>, b: Seq<u8>) -> bool
    decreases b.len(),
{
    if b.len() == 0 {
        false
    } else if a.len() == 0 {
        true
    } else if a.first() == b.first() {
        bytes_before(a.drop_first(), b.drop_first())
    } else {
        a.first() < b.first()
    }
}

/// Of two byte sequences, the one goes before the other that has the smaller
/// byte at the first place where they differ, or that ends there.
pub proof fn bytes_go_by_first_difference(a: Seq<u8>, b: Seq<u8>)
    ensures
        bytes_before(a, b) <==> exists|k: int|
            {
                &&& 0 <= k <= a.len()
                &&& k < b.len()
                &&& #[trigger] a.take(k) == b.take(k)
                &&& k < a.len() ==> a[k] < b[k]
            },
    decreases b.len(),
{
    if b.len() > 0 && a.len() > 0 && a.first() == b.first() {
        let left = a.drop_first();
        let right = b.drop_first();
        bytes_go_by_first_difference(left, right);
        if bytes_before(a, b) {
            let k = choose|k: int|
                {
                    &&& 0 <= k <= left.len()
                    &&& k < right.len()
                    &&& #[trigger] left.take(k) == right.take(k)
                    &&& k < left.len() ==> left[k] < right[k]
                };
            assert(a.take(k + 1) =~= seq![a.first()] + left.take(k));
            assert(b.take(k + 1) =~= seq![b.first()] + right.take(k));
        }
        assert forall|k: int|
            {
                &&& 0 <= k <= a.len()
                &&& k < b.len()
                &&& #[trigger] a.take(k) == b.take(k)
                &&& k < a.len() ==> a[k] < b[k]
            } implies bytes_before(a, b) by {
            assert(k > 0);
            assert(left.take(k - 1) =~= a.take(k).drop_first());
            assert(right.take(k - 1) =~= b.take(k).drop_first());
        }
    } else {
        if bytes_before(a, b) {
            assert(a.take(0) =~= b.take(0));
        }
        assert forall|k: int|
            {
                &&& 0 <= k <= a.len()
                &&& k < b.len()
                &&& #[trigger] a.take(k) == b.take(k)
                &&& k < a.len() ==> a[k] < b[k]
            } implies bytes_before(a, b) by {
            if k > 0 {
                assert(a.take(k)[0] == b.take(k)[0]);
            }
        }
    }
}

proof fn bytes_before_is_asymmetric(a: Seq<u8>, b: Seq<u8>)
    requires
        bytes_before(a, b),
    ensures
        !bytes_before(b, a),
    decreases b.len(),
{
    if a.len() > 0 && a.first() == b.first() {
        bytes_before_is_asymmetric(a.drop_first(), b.drop_first());
    }
}

proof fn not_bytes_before_is_transitive(a: Seq<u8>, b: Seq<u8>, c: Seq<u8>)
    requires
        !bytes_before(a, b),
        !bytes_before(b, c),
    ensures
        !bytes_before(a, c),
    decreases c.len(),
{
    if c.len() > 0 && a.len() > 0 && b.len() > 0 && a.first() == b.first() && b.first() == c.first() {
        not_bytes_before_is_transitive(a.drop_first(), b.drop_first(), c.drop_first());
    }
}

/// `a` goes before `b` as names do: by the bytes of their encoding.
pub open spec fn name_before(a: Seq<char>, b: Seq<char>) -> bool {
    bytes_before(vstd::utf8::encode_utf8(a), vstd::utf8::encode_utf8(b))
}

/// Of two names that differ, one goes before the other.
pub proof fn names_are_totally_ordered(a: Seq<char>, b: Seq<char>)
    ensures
        a != b <==> name_before(a, b) || name_before(b, a),
{
    let left = vstd::utf8::encode_utf8(a);
    let right = vstd::utf8::encode_utf8(b);
    if !bytes_before(left, right) && !bytes_before(right, left) {
        neither_before_means_equal(left, right);
        vstd::utf8::encode_utf8_decode_utf8(a);
        vstd::utf8::encode_utf8_decode_utf8(b);
    }
    if bytes_before(left, right) {
        bytes_before_is_asymmetric(left, right);
    }
    if bytes_before(right, left) {
        bytes_before_is_asymmetric(right, left);
    }
}

proof fn neither_before_means_equal(a: Seq<u8>, b: Seq<u8>)
    requires
        !bytes_before(a, b),
        !bytes_before(b, a),
    ensures
        a == b,
    decreases b.len(),
{
    if a.len() > 0 && b.len() > 0 {
        neither_before_means_equal(a.drop_first(), b.drop_first());
        assert(a =~= seq![a.first()] + a.drop_first());
        assert(b =~= seq![b.first()] + b.drop_first());
    } else {
        assert(a =~= b);
    }
}

/// Whether the name `a` goes before the name `b`.
fn name_goes_before(a: &str, b: &str) -> (first: bool)
    ensures
        first == name_before(a@, b@),
{
    let left = a.as_bytes();
    let right = b.as_bytes();
    let left_len: usize = left.len();
    let right_len: usize = right.len();
    let mut k: usize = 0;
    assert(left@.skip(0) =~= left@);
    assert(right@.skip(0) =~= right@);
    while k < left_len && k < right_len && left[k] == right[k]
        invariant
            left_len == left@.len(),
            right_len == right@.len(),
            k <= left_len,
            k <= right_len,
            bytes_before(left@, right@) == bytes_before(
                left@.skip(k as int),
                right@.skip(k as int),
            ),
        decreases left_len - k,
    {
        assert(left@.skip(k as int).drop_first() =~= left@.skip(k + 1));
        assert(right@.skip(k as int).drop_first() =~= right@.skip(k + 1));
        k += 1;
    }
    if k >= right_len {
        false
    } else if k >= left_len {
        true
    } else {
        left[k] < right[k]
    }
}

/// Files, as pairs of a name and a text, go by their names.
impl Ranked for (String, String) {
    open spec fn before(self, other: Self) -> bool {
        name_before(self.0@, other.0@)
    }

    proof fn before_is_asymmetric(a: Self, b: Self) {
        bytes_before_is_asymmetric(
            vstd::utf8::encode_utf8(a.0@),
            vstd::utf8::encode_utf8(b.0@),
        );
    }

    proof fn not_before_is_transitive(a: Self, b: Self, c: Self) {
        not_bytes_before_is_transitive(
            vstd::utf8::encode_utf8(a.0@),
            vstd::utf8::encode_utf8(b.0@),
            vstd::utf8::encode_utf8(c.0@),
        );
    }

    fn goes_before(&self, other: &Self) -> (first: bool) {
        name_goes_before(self.0.as_str(), other.0.as_str())
    }
}

/// A sort by name neither loses nor adds a file, and of two files that it puts
/// one before the other, the bytes of their names agree up to a place where the
/// first name ends or has the smaller byte.
pub proof fn files_are_sorted_by_name(
    files: Seq<(String, String)>,
    sorted: Seq<(String, String)>,
    i: int,
    j: int,
)
    requires
        is_stable_sort(files, sorted),
        0 <= i < j < sorted.len(),
    ensures
        sorted.len() == files.len(),
        sorted.to_multiset() == files.to_multiset(),
        ({
            let a = vstd::utf8::encode_utf8(sorted[i].0@);
            let b = vstd::utf8::encode_utf8(sorted[j].0@);
            exists|k: int|
                {
                    &&& 0 <= k <= a.len()
                    &&& k <= b.len()
                    &&& #[trigger] a.take(k) == b.take(k)
                    &&& k < a.len() ==> k < b.len() && a[k] < b[k]
                }
        }),
{
    same_items(files, sorted);
    let a = vstd::utf8::encode_utf8(sorted[i].0@);
    let b = vstd::utf8::encode_utf8(sorted[j].0@);
    assert(!sorted[j].before(sorted[i]));
    if bytes_before(a, b) {
        bytes_go_by_first_difference(a, b);
    } else {
        neither_before_means_equal(a, b);
        assert(a.take(a.len() as int) == b.take(a.len() as int));
    }
}

/// A sort of counted labels neither loses nor adds one, and puts none before
/// another that was counted more often.
pub proof fn labels_are_sorted_by_count(
    counts: Seq<(String, usize)>,
    sorted: Seq<(String, usize)>,
)
    requires
        is_stable_sort(counts, sorted),
    ensures
        sorted.len() == counts.len(),
        sorted.to_multiset() == counts.to_multiset(),
        forall|i: int, j: int|
            0 <= i < j < sorted.len() ==> (#[trigger] sorted[i]).1 >= (#[trigger] sorted[j]).1,
{
    same_items(counts, sorted);
    assert forall|i: int, j: int| 0 <= i < j < sorted.len() implies (#[trigger] sorted[i]).1 >= (
    #[trigger] sorted[j]).1 by {
        assert(!sorted[j].before(sorted[i]));
    }
}

/// Counted labels, as pairs of a label and its count, go from the largest
/// count to the smallest.
impl Ranked for (String, usize) {
    open spec fn before(self, other: Self) -> bool {
        self.1 > other.1
    }

    proof fn before_is_asymmetric(a: Self, b: Self) {
    }

    proof fn not_before_is_transitive(a: Self, b: Self, c: Self) {
    }

    fn goes_before(&self, other: &Self) -> (first: bool) {
        self.1 > other.1
    }
}

} // verus!
