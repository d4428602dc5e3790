//! Sorting: a stable sort, and what it promises of any order.
use crate::text::{
    lemma_text_less_irreflexive, lemma_text_less_total, lemma_text_less_transitive, rank, text_less, Rank,
};
use crate::value::{add_to, nothing, Value};
use vstd::prelude::*;

verus! {

/// One part of a sort key.
#[verifier::ext_equal]
pub enum Part {
    Number(int),
    Text(Seq<char>),
}

/// A part of a sort key, as it is computed.
pub enum KeyPart {
    Number(i128),
    Text(String),
}

impl DeepView for KeyPart {
    type V = Part;

    open spec fn deep_view(&self) -> Part {
        match self {
            KeyPart::Number(n) => Part::Number(*n as int),
            KeyPart::Text(s) => Part::Text(s@),
        }
    }
}

/// Numbers stand in their order, texts in theirs, and numbers before texts.
pub open spec fn part_less(a: Part, b: Part) -> bool {
    match (a, b) {
        (Part::Number(x), Part::Number(y)) => x < y,
        (Part::Text(x), Part::Text(y)) => text_less(x, y),
        (Part::Number(_), Part::Text(_)) => true,
        (Part::Text(_), Part::Number(_)) => false,
    }
}

/// Keys are compared part by part.
pub open spec fn key_less(a: Seq<Part>, b: Seq<Part>) -> bool
    decreases a.len(),
{
    if b.len() == 0 {
        false
    } else if a.len() == 0 {
        true
    } else if a[0] != b[0] {
        part_less(a[0], b[0])
    } else {
        key_less(a.drop_first(), b.drop_first())
    }
}

proof fn lemma_part_less(a: Part, b: Part)
    ensures
        !part_less(a, a),
        part_less(a, b) || part_less(b, a) || a == b,
        !(part_less(a, b) && part_less(b, a)),
{
    match (a, b) {
        (Part::Text(x), Part::Text(y)) => {
            lemma_text_less_irreflexive(x);
            lemma_text_less_total(x, y);
            if text_less(x, y) && text_less(y, x) {
                lemma_text_less_transitive(x, y, x);
            }
        },
        (Part::Text(x), _) => {
            lemma_text_less_irreflexive(x);
        },
        _ => {},
    }
}

proof fn lemma_part_less_transitive(a: Part, b: Part, c: Part)
    requires
        part_less(a, b),
        part_less(b, c),
    ensures
        part_less(a, c),
{
    match (a, b, c) {
        (Part::Text(x), Part::Text(y), Part::Text(z)) => {
            lemma_text_less_transitive(x, y, z);
        },
        _ => {},
    }
}

/// Any two keys are equal, or one of them is less than the other, and not both.
pub proof fn lemma_key_less(a: Seq<Part>, b: Seq<Part>)
    ensures
        !key_less(a, a),
        key_less(a, b) || key_less(b, a) || a == b,
        !(key_less(a, b) && key_less(b, a)),
    decreases a.len(),
{
    if a.len() == 0 && b.len() == 0 {
        assert(a =~= b);
    } else if a.len() > 0 {
        if b.len() > 0 {
            lemma_part_less(a[0], b[0]);
            lemma_key_less(a.drop_first(), b.drop_first());
            if a[0] == b[0] && a.drop_first() == b.drop_first() {
                assert(a =~= seq![a[0]] + a.drop_first());
                assert(b =~= seq![b[0]] + b.drop_first());
            }
        } else {
            lemma_key_less(a.drop_first(), b);
        }
    }
}

/// The order of keys is transitive.
pub proof fn lemma_key_less_transitive(a: Seq<Part>, b: Seq<Part>, c: Seq<Part>)
    requires
        key_less(a, b),
        key_less(b, c),
    ensures
        key_less(a, c),
    decreases a.len(),
{
    if a.len() > 0 && b.len() > 0 && c.len() > 0 {
        if a[0] == b[0] && b[0] == c[0] {
            lemma_key_less_transitive(a.drop_first(), b.drop_first(), c.drop_first());
        } else if a[0] != b[0] && b[0] != c[0] {
            lemma_part_less_transitive(a[0], b[0], c[0]);
            lemma_part_less(a[0], b[0]);
        }
    }
}

/// Whether one key is less than another.
pub fn key_is_less(a: &Vec<KeyPart>, b: &Vec<KeyPart>) -> (result: bool)
    ensures
        result == key_less(a.deep_view(), b.deep_view()),
{
    let ghost x = a.deep_view();
    let ghost y = b.deep_view();
    let mut i: usize = 0;
    assert(x.skip(0) =~= x);
    assert(y.skip(0) =~= y);
    loop
        invariant
            x == a.deep_view(),
            y == b.deep_view(),
            i <= a.len(),
            i <= b.len(),
            key_less(x, y) == key_less(x.skip(i as int), y.skip(i as int)),
        decreases a.len() - i,
    {
        if i == b.len() {
            return false;
        }
        if i == a.len() {
            return true;
        }
        proof {
            assert(x.skip(i as int)[0] == a@[i as int].deep_view());
            assert(y.skip(i as int)[0] == b@[i as int].deep_view());
            assert(x.skip(i as int).drop_first() =~= x.skip(i + 1));
            assert(y.skip(i as int).drop_first() =~= y.skip(i + 1));
        }
        match (&a[i], &b[i]) {
            (KeyPart::Number(n), KeyPart::Number(m)) => {
                if *n != *m {
                    return *n < *m;
                }
            },
            (KeyPart::Text(s), KeyPart::Text(r)) => match rank(s.as_str(), r.as_str()) {
                Rank::Before => {
                    proof {
                        lemma_text_less_irreflexive(s@);
                    }
                    return true;
                },
                Rank::After => {
                    proof {
                        lemma_text_less_irreflexive(s@);
                        if text_less(s@, r@) {
                            lemma_text_less_transitive(s@, r@, s@);
                        }
                    }
                    return false;
                },
                Rank::Equal => {},
            },
            (KeyPart::Number(_), KeyPart::Text(_)) => {
                return true;
            },
            (KeyPart::Text(_), KeyPart::Number(_)) => {
                return false;
            },
        }
        i = i + 1;
    }
}

/// An order of the values of a type, given by the key that each value has.
pub trait Order<T: DeepView> {
    spec fn key(&self, value: T::V) -> Seq<Part>;

    fn key_of(&self, item: &T) -> (result: Vec<KeyPart>)
        ensures
            result.deep_view() == self.key(item.deep_view()),
    ;
}

/// `a` may stand before `b`.
pub open spec fn le<T: DeepView, O: Order<T>>(order: O, a: T::V, b: T::V) -> bool {
    !key_less(order.key(b), order.key(a))
}

proof fn lemma_le_total<T: DeepView, O: Order<T>>(order: O, a: T::V, b: T::V)
    ensures
        le::<T, O>(order, a, b) || le::<T, O>(order, b, a),
{
    lemma_key_less(order.key(a), order.key(b));
}

proof fn lemma_le_transitive<T: DeepView, O: Order<T>>(order: O, a: T::V, b: T::V, c: T::V)
    requires
        le::<T, O>(order, a, b),
        le::<T, O>(order, b, c),
    ensures
        le::<T, O>(order, a, c),
{
    lemma_key_less(order.key(a), order.key(b));
    lemma_key_less(order.key(b), order.key(c));
    if key_less(order.key(a), order.key(b)) && key_less(order.key(b), order.key(c)) {
        lemma_key_less_transitive(order.key(a), order.key(b), order.key(c));
        lemma_key_less(order.key(a), order.key(c));
    }
}

/// `s` with `x` put behind the last element that may stand before it.
pub open spec fn inserted<T: DeepView, O: Order<T>>(s: Seq<T::V>, x: T::V, order: O) -> Seq<T::V>
    decreases s.len(),
{
    if s.len() == 0 || le::<T, O>(order, s.last(), x) {
        s.push(x)
    } else {
        inserted::<T, O>(s.drop_last(), x, order).push(s.last())
    }
}

/// The elements of `s` in order; elements that are equal in the order keep their places
/// to each other.
pub open spec fn sorted<T: DeepView, O: Order<T>>(s: Seq<T::V>, order: O) -> Seq<T::V>
    decreases s.len(),
{
    if s.len() == 0 {
        s
    } else {
        inserted::<T, O>(sorted::<T, O>(s.drop_last(), order), s.last(), order)
    }
}

/// Each element may stand before all that follow it.
pub open spec fn in_order<T: DeepView, O: Order<T>>(s: Seq<T::V>, order: O) -> bool {
    forall|i: int, j: int| 0 <= i <= j < s.len() ==> le::<T, O>(order, #[trigger] s[i], #[trigger] s[j])
}

proof fn lemma_inserted<T: DeepView, O: Order<T>>(s: Seq<T::V>, x: T::V, order: O)
    requires
        in_order::<T, O>(s, order),
    ensures
        in_order::<T, O>(inserted::<T, O>(s, x, order), order),
        inserted::<T, O>(s, x, order).len() == s.len() + 1,
        inserted::<T, O>(s, x, order).to_multiset() == s.to_multiset().insert(x),
    decreases s.len(),
{
    broadcast use vstd::seq_lib::group_to_multiset_ensures;

    lemma_le_total::<T, O>(order, x, x);
    if s.len() == 0 {
    } else if le::<T, O>(order, s.last(), x) {
        assert forall|i: int| 0 <= i < s.len() implies le::<T, O>(order, #[trigger] s[i], x) by {
            lemma_le_transitive::<T, O>(order, s[i], s.last(), x);
        }
    } else {
        let rest = s.drop_last();
        lemma_inserted::<T, O>(rest, x, order);
        let result = inserted::<T, O>(rest, x, order);
        lemma_le_total::<T, O>(order, s.last(), x);
        lemma_le_total::<T, O>(order, s.last(), s.last());
        assert(s =~= rest.push(s.last()));
        assert forall|i: int| 0 <= i < result.len() implies le::<T, O>(order, #[trigger] result[i], s.last()) by {
            assert(result.to_multiset().contains(result[i])) by {
                assert(result.contains(result[i]));
            }
            if result[i] != x {
                assert(rest.to_multiset().contains(result[i]));
                assert(rest.contains(result[i]));
                let j = choose|j: int| 0 <= j < rest.len() && rest[j] == result[i];
                assert(le::<T, O>(order, s[j], s[s.len() - 1]));
            }
        }
        assert(s.to_multiset().insert(x) =~= rest.to_multiset().insert(x).insert(s.last()));
    }
}

/// Sorting puts the elements in order, and neither drops nor adds one.
pub proof fn sorting_is_an_ordered_rearrangement<T: DeepView, O: Order<T>>(s: Seq<T::V>, order: O)
    ensures
        in_order::<T, O>(sorted::<T, O>(s, order), order),
        sorted::<T, O>(s, order).len() == s.len(),
        sorted::<T, O>(s, order).to_multiset() == s.to_multiset(),
    decreases s.len(),
{
    broadcast use vstd::seq_lib::group_to_multiset_ensures;

    if s.len() > 0 {
        sorting_is_an_ordered_rearrangement::<T, O>(s.drop_last(), order);
        lemma_inserted::<T, O>(sorted::<T, O>(s.drop_last(), order), s.last(), order);
        assert(s =~= s.drop_last().push(s.last()));
    }
}

/// Sorting keeps the membership of every element.
pub proof fn lemma_sorted_contains<T: DeepView, O: Order<T>>(s: Seq<T::V>, order: O, x: T::V)
    ensures
        sorted::<T, O>(s, order).contains(x) <==> s.contains(x),
{
    broadcast use vstd::seq_lib::group_to_multiset_ensures;

    sorting_is_an_ordered_rearrangement::<T, O>(s, order);
    assert(sorted::<T, O>(s, order).contains(x) <==> sorted::<T, O>(s, order).to_multiset().count(x) > 0);
    assert(s.contains(x) <==> s.to_multiset().count(x) > 0);
}

/// What is in order stays as it is.
pub proof fn sorting_keeps_what_is_in_order<T: DeepView, O: Order<T>>(s: Seq<T::V>, order: O)
    requires
        in_order::<T, O>(s, order),
    ensures
        sorted::<T, O>(s, order) == s,
    decreases s.len(),
{
    if s.len() > 0 {
        let rest = s.drop_last();
        assert(in_order::<T, O>(rest, order));
        sorting_keeps_what_is_in_order::<T, O>(rest, order);
        if rest.len() > 0 {
            assert(le::<T, O>(order, s[rest.len() - 1], s[s.len() - 1]));
        }
        assert(s =~= rest.push(s.last()));
    }
}

proof fn lemma_first_part(a: Part, rest: Seq<Part>, b: Part, others: Seq<Part>)
    ensures
        key_less(seq![a] + rest, seq![b] + others) <==> if a == b {
            key_less(rest, others)
        } else {
            part_less(a, b)
        },
{
    assert((seq![a] + rest).drop_first() =~= rest);
    assert((seq![b] + others).drop_first() =~= others);
}

/// Keys of one part.
pub proof fn lemma_one_part(a: Part, b: Part)
    ensures
        key_less(seq![a], seq![b]) <==> a != b && part_less(a, b),
{
    assert(seq![a] =~= seq![a] + Seq::empty());
    assert(seq![b] =~= seq![b] + Seq::empty());
    lemma_first_part(a, Seq::empty(), b, Seq::empty());
}

/// Keys of two parts.
pub proof fn lemma_two_parts(a: Part, b: Part, x: Part, y: Part)
    ensures
        key_less(seq![a, b], seq![x, y]) <==> if a == x {
            b != y && part_less(b, y)
        } else {
            part_less(a, x)
        },
{
    assert(seq![a, b] =~= seq![a] + (seq![b] + Seq::empty()));
    assert(seq![x, y] =~= seq![x] + (seq![y] + Seq::empty()));
    lemma_first_part(a, seq![b] + Seq::empty(), x, seq![y] + Seq::empty());
    lemma_first_part(b, Seq::empty(), y, Seq::empty());
}

/// Keys of three parts.
pub proof fn lemma_three_parts(a: Part, b: Part, c: Part, x: Part, y: Part, z: Part)
    ensures
        key_less(seq![a, b, c], seq![x, y, z]) <==> if a == x {
            key_less(seq![b, c], seq![y, z])
        } else {
            part_less(a, x)
        },
{
    assert(seq![a, b, c] =~= seq![a] + seq![b, c]);
    assert(seq![x, y, z] =~= seq![x] + seq![y, z]);
    lemma_first_part(a, seq![b, c], x, seq![y, z]);
    lemma_two_parts(b, c, y, z);
}

/// Keys of four parts.
pub proof fn lemma_four_parts(a: Part, b: Part, c: Part, d: Part, w: Part, x: Part, y: Part, z: Part)
    ensures
        key_less(seq![a, b, c, d], seq![w, x, y, z]) <==> if a == w {
            key_less(seq![b, c, d], seq![x, y, z])
        } else {
            part_less(a, w)
        },
{
    assert(seq![a, b, c, d] =~= seq![a] + seq![b, c, d]);
    assert(seq![w, x, y, z] =~= seq![w] + seq![x, y, z]);
    lemma_first_part(a, seq![b, c, d], w, seq![x, y, z]);
}

/// How many elements have a property.
pub open spec fn tally<V>(s: Seq<V>, p: spec_fn(V) -> bool) -> nat
    decreases s.len(),
{
    if s.len() == 0 {
        0
    } else {
        tally(s.drop_last(), p) + if p(s.last()) {
            1nat
        } else {
            0nat
        }
    }
}

/// The more elements, and the wider the property, the more are counted.
pub proof fn lemma_tally_grows<V>(s: Seq<V>, n: int, p: spec_fn(V) -> bool, q: spec_fn(V) -> bool)
    requires
        0 <= n <= s.len(),
        forall|i: int| 0 <= i < n && p(#[trigger] s[i]) ==> q(s[i]),
    ensures
        tally(s.take(n), p) <= tally(s, q),
    decreases s.len(),
{
    if s.len() > 0 {
        let rest = s.drop_last();
        if n == s.len() {
            assert(s.take(n) =~= s);
            assert(s.last() == s[n - 1]);
            assert forall|i: int| 0 <= i < n - 1 && p(#[trigger] rest[i]) implies q(rest[i]) by {
                assert(rest[i] == s[i]);
            }
            lemma_tally_grows(rest, n - 1, p, q);
            assert(rest.take(n - 1) =~= rest);
        } else {
            assert forall|i: int| 0 <= i < n && p(#[trigger] rest[i]) implies q(rest[i]) by {
                assert(rest[i] == s[i]);
            }
            lemma_tally_grows(rest, n, p, q);
            assert(rest.take(n) =~= s.take(n));
        }
    }
}

proof fn lemma_inserted_tally<T: DeepView, O: Order<T>>(s: Seq<T::V>, x: T::V, order: O, p: spec_fn(T::V) -> bool)
    ensures
        tally(inserted::<T, O>(s, x, order), p) == tally(s, p) + if p(x) {
            1nat
        } else {
            0nat
        },
    decreases s.len(),
{
    if s.len() == 0 || le::<T, O>(order, s.last(), x) {
        assert(s.push(x).drop_last() =~= s);
    } else {
        lemma_inserted_tally::<T, O>(s.drop_last(), x, order, p);
        let rest = inserted::<T, O>(s.drop_last(), x, order);
        assert(rest.push(s.last()).drop_last() =~= rest);
    }
}

/// Sorting keeps every count.
pub proof fn lemma_sorted_tally<T: DeepView, O: Order<T>>(s: Seq<T::V>, order: O, p: spec_fn(T::V) -> bool)
    ensures
        tally(sorted::<T, O>(s, order), p) == tally(s, p),
    decreases s.len(),
{
    if s.len() > 0 {
        lemma_sorted_tally::<T, O>(s.drop_last(), order, p);
        lemma_inserted_tally::<T, O>(sorted::<T, O>(s.drop_last(), order), s.last(), order, p);
    }
}

/// In what is in order, as many elements stand before an element's first place as are less.
proof fn lemma_prefix_tally<T: DeepView, O: Order<T>>(s: Seq<T::V>, order: O, x: T::V, n: int)
    requires
        in_order::<T, O>(s, order),
        0 <= n <= s.len(),
        forall|i: int| 0 <= i < n ==> key_less(order.key(#[trigger] s[i]), order.key(x)),
        forall|i: int| n <= i < s.len() ==> !key_less(order.key(#[trigger] s[i]), order.key(x)),
    ensures
        tally(s, |y: T::V| key_less(order.key(y), order.key(x))) == n,
    decreases s.len(),
{
    if s.len() > 0 {
        let rest = s.drop_last();
        assert(s.last() == s[s.len() - 1]);
        assert(in_order::<T, O>(rest, order));
        let m = if n == s.len() {
            n - 1
        } else {
            n
        };
        assert forall|i: int| 0 <= i < m implies key_less(order.key(#[trigger] rest[i]), order.key(x)) by {
            assert(rest[i] == s[i]);
        }
        assert forall|i: int| m <= i < rest.len() implies !key_less(order.key(#[trigger] rest[i]), order.key(x)) by {
            assert(rest[i] == s[i]);
        }
        lemma_prefix_tally::<T, O>(rest, order, x, m);
    }
}

proof fn lemma_less_come_first<T: DeepView, O: Order<T>>(s: Seq<T::V>, order: O, x: T::V) -> (n: int)
    requires
        in_order::<T, O>(s, order),
    ensures
        0 <= n <= s.len(),
        forall|i: int| 0 <= i < n ==> key_less(order.key(#[trigger] s[i]), order.key(x)),
        forall|i: int| n <= i < s.len() ==> !key_less(order.key(#[trigger] s[i]), order.key(x)),
    decreases s.len(),
{
    if s.len() == 0 {
        0
    } else {
        let rest = s.drop_last();
        assert(in_order::<T, O>(rest, order)) by {
            assert forall|i: int, j: int| 0 <= i <= j < rest.len() implies le::<T, O>(
                order,
                #[trigger] rest[i],
                #[trigger] rest[j],
            ) by {
                assert(rest[i] == s[i] && rest[j] == s[j]);
            }
        }
        let n = lemma_less_come_first::<T, O>(rest, order, x);
        let last = s.len() - 1;
        assert forall|i: int| 0 <= i < n implies key_less(order.key(#[trigger] s[i]), order.key(x)) by {
            assert(rest[i] == s[i]);
        }
        assert forall|i: int| n <= i < last implies !key_less(order.key(#[trigger] s[i]), order.key(x)) by {
            assert(rest[i] == s[i]);
        }
        if key_less(order.key(s[last]), order.key(x)) {
            assert forall|i: int| 0 <= i < s.len() implies key_less(order.key(#[trigger] s[i]), order.key(x)) by {
                assert(le::<T, O>(order, s[i], s[last]));
                lemma_key_less(order.key(s[i]), order.key(s[last]));
                if key_less(order.key(s[i]), order.key(s[last])) {
                    lemma_key_less_transitive(order.key(s[i]), order.key(s[last]), order.key(x));
                }
            }
            s.len() as int
        } else {
            n
        }
    }
}

/// An element stands in its place when things are sorted: those that are less come before it, and
/// nothing else does, but for what has the same key.
pub proof fn lemma_place_in_order<T: DeepView, O: Order<T>>(s: Seq<T::V>, order: O, x: T::V)
    requires
        s.contains(x),
    ensures
        ({
            let ordered = sorted::<T, O>(s, order);
            let place = tally(s, |y: T::V| key_less(order.key(y), order.key(x))) as int;
            &&& place < ordered.len()
            &&& order.key(ordered[place]) == order.key(x)
            &&& forall|i: int| 0 <= i < place ==> key_less(order.key(#[trigger] ordered[i]), order.key(x))
            &&& forall|i: int| place <= i < ordered.len() ==> !key_less(order.key(#[trigger] ordered[i]), order.key(x))
        }),
{
    let ordered = sorted::<T, O>(s, order);
    sorting_is_an_ordered_rearrangement::<T, O>(s, order);
    let n = lemma_less_come_first::<T, O>(ordered, order, x);
    lemma_prefix_tally::<T, O>(ordered, order, x, n);
    lemma_sorted_tally::<T, O>(s, order, |y: T::V| key_less(order.key(y), order.key(x)));
    lemma_sorted_contains::<T, O>(s, order, x);
    let k = choose|k: int| 0 <= k < ordered.len() && ordered[k] == x;
    lemma_key_less(order.key(x), order.key(x));
    assert(k >= n);
    assert(le::<T, O>(order, ordered[n], ordered[k]));
    lemma_key_less(order.key(ordered[n]), order.key(x));
}

/// The first of the elements up to a place that have a property.
pub proof fn lemma_first<V>(s: Seq<V>, p: spec_fn(V) -> bool, k: int) -> (i: int)
    requires
        0 <= k < s.len(),
        p(s[k]),
    ensures
        0 <= i <= k,
        p(s[i]),
        forall|j: int| 0 <= j < i ==> !p(#[trigger] s[j]),
    decreases k,
{
    if exists|j: int| 0 <= j < k && p(#[trigger] s[j]) {
        let j = choose|j: int| 0 <= j < k && p(#[trigger] s[j]);
        lemma_first(s, p, j)
    } else {
        k
    }
}

/// Where only elements before a place have a property, those after it count for nothing.
pub proof fn lemma_tally_before<V>(s: Seq<V>, n: int, p: spec_fn(V) -> bool, q: spec_fn(V) -> bool)
    requires
        0 <= n <= s.len(),
        forall|i: int| 0 <= i < s.len() && p(#[trigger] s[i]) ==> i < n && q(s[i]),
    ensures
        tally(s, p) <= tally(s.take(n), q),
    decreases s.len(),
{
    if s.len() > 0 {
        let rest = s.drop_last();
        assert(s.last() == s[s.len() - 1]);
        assert forall|i: int| 0 <= i < rest.len() && p(#[trigger] rest[i]) implies i < n && q(rest[i]) by {
            assert(rest[i] == s[i]);
        }
        if n == s.len() {
            assert(s.take(n) =~= s);
            lemma_tally_before(rest, n - 1, p, q);
            assert(rest.take(n - 1) =~= rest);
        } else {
            lemma_tally_before(rest, n, p, q);
            assert(rest.take(n) =~= s.take(n));
        }
    }
}

/// The sum of what `f` gives for each element.
pub open spec fn sum_by<V>(s: Seq<V>, f: spec_fn(V) -> nat) -> nat
    decreases s.len(),
{
    if s.len() == 0 {
        0
    } else {
        sum_by(s.drop_last(), f) + f(s.last())
    }
}

proof fn lemma_inserted_sum<T: DeepView, O: Order<T>>(s: Seq<T::V>, x: T::V, order: O, f: spec_fn(T::V) -> nat)
    ensures
        sum_by(inserted::<T, O>(s, x, order), f) == sum_by(s, f) + f(x),
    decreases s.len(),
{
    if s.len() == 0 || le::<T, O>(order, s.last(), x) {
        assert(s.push(x).drop_last() =~= s);
    } else {
        lemma_inserted_sum::<T, O>(s.drop_last(), x, order, f);
        let rest = inserted::<T, O>(s.drop_last(), x, order);
        assert(rest.push(s.last()).drop_last() =~= rest);
    }
}

/// Sorting keeps every sum.
pub proof fn lemma_sorted_sum<T: DeepView, O: Order<T>>(s: Seq<T::V>, order: O, f: spec_fn(T::V) -> nat)
    ensures
        sum_by(sorted::<T, O>(s, order), f) == sum_by(s, f),
    decreases s.len(),
{
    if s.len() > 0 {
        lemma_sorted_sum::<T, O>(s.drop_last(), order, f);
        lemma_inserted_sum::<T, O>(sorted::<T, O>(s.drop_last(), order), s.last(), order, f);
    }
}

/// Sorting keeps what holds of every element.
pub proof fn lemma_sorted_pointwise<T: DeepView, O: Order<T>>(s: Seq<T::V>, order: O, p: spec_fn(T::V) -> bool)
    requires
        forall|i: int| 0 <= i < s.len() ==> p(#[trigger] s[i]),
    ensures
        forall|i: int| 0 <= i < sorted::<T, O>(s, order).len() ==> p(#[trigger] sorted::<T, O>(s, order)[i]),
{
    let result = sorted::<T, O>(s, order);
    assert forall|i: int| 0 <= i < result.len() implies p(#[trigger] result[i]) by {
        lemma_sorted_contains::<T, O>(s, order, result[i]);
        assert(result.contains(result[i]));
        let j = choose|j: int| 0 <= j < s.len() && s[j] == result[i];
        assert(p(s[j]));
    }
}

proof fn lemma_inserted_pairwise<T: DeepView, O: Order<T>>(
    s: Seq<T::V>,
    x: T::V,
    order: O,
    apart: spec_fn(T::V, T::V) -> bool,
)
    requires
        forall|a: T::V, b: T::V| #[trigger] apart(a, b) ==> apart(b, a),
        forall|i: int, j: int| 0 <= i < j < s.len() ==> apart(#[trigger] s[i], #[trigger] s[j]),
        forall|i: int| 0 <= i < s.len() ==> apart(#[trigger] s[i], x),
    ensures
        ({
            let result = inserted::<T, O>(s, x, order);
            &&& forall|i: int, j: int| 0 <= i < j < result.len() ==> apart(#[trigger] result[i], #[trigger] result[j])
            &&& forall|i: int| 0 <= i < result.len() ==> #[trigger] result[i] == x || s.contains(result[i])
        }),
    decreases s.len(),
{
    let result = inserted::<T, O>(s, x, order);
    if s.len() == 0 || le::<T, O>(order, s.last(), x) {
        assert forall|i: int| 0 <= i < result.len() implies #[trigger] result[i] == x || s.contains(result[i]) by {
            if i < s.len() {
                assert(s[i] == result[i]);
            }
        }
    } else {
        let rest = s.drop_last();
        let inner = inserted::<T, O>(rest, x, order);
        lemma_inserted_pairwise::<T, O>(rest, x, order, apart);
        assert forall|i: int| 0 <= i < inner.len() implies apart(#[trigger] inner[i], s.last()) && (inner[i] == x
            || s.contains(inner[i])) by {
            assert(s.last() == s[s.len() - 1]);
            if inner[i] == x {
                assert(apart(s[s.len() - 1], x));
            } else {
                let j = choose|j: int| 0 <= j < rest.len() && rest[j] == inner[i];
                assert(s[j] == inner[i]);
                assert(apart(s[j], s[s.len() - 1]));
            }
        }
        assert forall|i: int, j: int| 0 <= i < j < result.len() implies apart(#[trigger] result[i], #[trigger] result[j]) by {
            assert(result[i] == inner[i]);
            if j < inner.len() {
                assert(result[j] == inner[j]);
            }
        }
        assert forall|i: int| 0 <= i < result.len() implies #[trigger] result[i] == x || s.contains(result[i]) by {
            if i < inner.len() {
                assert(result[i] == inner[i]);
            } else {
                assert(s[s.len() - 1] == result[i]);
            }
        }
    }
}

/// Sorting keeps what holds of every two elements, in whichever order they stand.
pub proof fn lemma_sorted_pairwise<T: DeepView, O: Order<T>>(
    s: Seq<T::V>,
    order: O,
    apart: spec_fn(T::V, T::V) -> bool,
)
    requires
        forall|a: T::V, b: T::V| #[trigger] apart(a, b) ==> apart(b, a),
        forall|i: int, j: int| 0 <= i < j < s.len() ==> apart(#[trigger] s[i], #[trigger] s[j]),
    ensures
        forall|i: int, j: int|
            0 <= i < j < sorted::<T, O>(s, order).len() ==> apart(
                #[trigger] sorted::<T, O>(s, order)[i],
                #[trigger] sorted::<T, O>(s, order)[j],
            ),
    decreases s.len(),
{
    if s.len() > 0 {
        let rest = s.drop_last();
        lemma_sorted_pairwise::<T, O>(rest, order, apart);
        let inner = sorted::<T, O>(rest, order);
        assert forall|i: int| 0 <= i < inner.len() implies apart(#[trigger] inner[i], s.last()) by {
            lemma_sorted_contains::<T, O>(rest, order, inner[i]);
            assert(inner.contains(inner[i]));
            let j = choose|j: int| 0 <= j < rest.len() && rest[j] == inner[i];
            assert(s[j] == inner[i] && s.last() == s[s.len() - 1]);
            assert(apart(s[j], s[s.len() - 1]));
        }
        lemma_inserted_pairwise::<T, O>(inner, s.last(), order, apart);
    }
}

proof fn lemma_inserted_at<T: DeepView, O: Order<T>>(s: Seq<T::V>, x: T::V, order: O, at: int)
    requires
        0 <= at <= s.len(),
        at > 0 ==> le::<T, O>(order, s[at - 1], x),
        forall|k: int| at <= k < s.len() ==> !le::<T, O>(order, #[trigger] s[k], x),
    ensures
        inserted::<T, O>(s, x, order) == s.insert(at, x),
    decreases s.len(),
{
    if at == s.len() {
        assert(s.insert(at, x) =~= s.push(x));
    } else {
        assert(!le::<T, O>(order, s[s.len() - 1], x));
        lemma_inserted_at::<T, O>(s.drop_last(), x, order, at);
        assert(s.insert(at, x) =~= s.drop_last().insert(at, x).push(s.last()));
    }
}

/// Sorts a vector; elements that are equal in the order keep their places to each other.
pub fn sort<T: DeepView, O: Order<T>>(items: Vec<T>, order: &O) -> (result: Vec<T>)
    ensures
        result.deep_view() == sorted::<T, O>(items.deep_view(), *order),
{
    let mut rest: Vec<T> = items;
    let ghost all = items.deep_view();
    let mut result: Vec<T> = Vec::new();
    let mut keys: Vec<Vec<KeyPart>> = Vec::new();
    let mut done: usize = 0;
    let total: usize = rest.len();
    assert(result.deep_view() =~= all.take(0));
    while done < total
        invariant
            done <= total,
            total == all.len(),
            rest.deep_view() == all.skip(done as int),
            result.deep_view() == sorted::<T, O>(all.take(done as int), *order),
            result.len() == done,
            keys.len() == done,
            forall|k: int| 0 <= k < done ==> (#[trigger] keys@[k]).deep_view() == order.key(result.deep_view()[k]),
        decreases total - done,
    {
        let ghost before = rest.deep_view();
        assert(before.len() == rest@.len());
        let ghost unsorted = rest@;
        let x = rest.remove(0);
        assert(x.deep_view() == before[0]);
        assert forall|k: int| 0 <= k < rest@.len() implies rest.deep_view()[k] == all.skip(done + 1)[k] by {
            assert(rest@[k] == unsorted[k + 1]);
            assert(before[k + 1] == unsorted[k + 1].deep_view());
        }
        assert(rest.deep_view() =~= all.skip(done + 1));
        let mut at: usize = result.len();
        let key = order.key_of(&x);
        while at > 0 && key_is_less(&key, &keys[at - 1])
            invariant
                at <= result.len(),
                keys.len() == result.len(),
                key.deep_view() == order.key(x.deep_view()),
                forall|k: int| 0 <= k < keys.len() ==> (#[trigger] keys@[k]).deep_view() == order.key(result.deep_view()[k]),
                forall|k: int| at <= k < result.deep_view().len() ==> !le::<T, O>(*order, #[trigger] result.deep_view()[k], x.deep_view()),
            decreases at,
        {
            assert(!le::<T, O>(*order, result.deep_view()[at - 1], x.deep_view()));
            at = at - 1;
        }
        let ghost old_result = result.deep_view();
        proof {
            if at > 0 {
                assert(le::<T, O>(*order, old_result[at - 1], x.deep_view()));
            }
            lemma_inserted_at::<T, O>(old_result, x.deep_view(), *order, at as int);
            assert(all.take(done + 1).drop_last() =~= all.take(done as int));
            assert(all.take(done + 1).last() == x.deep_view());
        }
        let ghost old_keys = keys@;
        result.insert(at, x);
        keys.insert(at, key);
        assert(result.deep_view() =~= old_result.insert(at as int, x.deep_view()));
        proof {
            assert forall|k: int| 0 <= k < keys.len() implies (#[trigger] keys@[k]).deep_view() == order.key(
                result.deep_view()[k],
            ) by {
                if k < at {
                    assert(keys@[k] == old_keys[k]);
                } else if k > at {
                    assert(keys@[k] == old_keys[k - 1]);
                }
            }
        }
        done = done + 1;
    }
    assert(all.take(done as int) =~= all);
    result
}

/// `s` without the elements that repeat the one before them.
pub open spec fn without_repeats<V>(s: Seq<V>) -> Seq<V>
    decreases s.len(),
{
    if s.len() == 0 {
        s
    } else if s.len() >= 2 && s[s.len() - 2] == s.last() {
        without_repeats(s.drop_last())
    } else {
        without_repeats(s.drop_last()).push(s.last())
    }
}

/// The elements of `s`, each once, in order.
pub open spec fn distinct<T: DeepView, O: Order<T>>(s: Seq<T::V>, order: O) -> Seq<T::V> {
    without_repeats(sorted::<T, O>(s, order))
}

/// Each element comes truly before all that follow it.
pub open spec fn strictly_in_order<T: DeepView, O: Order<T>>(s: Seq<T::V>, order: O) -> bool {
    forall|i: int, j: int|
        0 <= i < j < s.len() ==> key_less(order.key(#[trigger] s[i]), order.key(#[trigger] s[j]))
}

/// The key of a value tells which value it is.
pub open spec fn keys_identify<T: DeepView, O: Order<T>>(order: O) -> bool {
    forall|a: T::V, b: T::V| #[trigger] order.key(a) == #[trigger] order.key(b) ==> a == b
}

proof fn lemma_without_repeats<T: DeepView, O: Order<T>>(s: Seq<T::V>, order: O)
    requires
        in_order::<T, O>(s, order),
        keys_identify::<T, O>(order),
    ensures
        strictly_in_order::<T, O>(without_repeats(s), order),
        forall|x: T::V| #[trigger] without_repeats(s).contains(x) <==> s.contains(x),
        s.len() > 0 ==> without_repeats(s).len() > 0 && without_repeats(s).last() == s.last(),
    decreases s.len(),
{
    let result = without_repeats(s);
    if s.len() > 0 {
        let rest = s.drop_last();
        assert(in_order::<T, O>(rest, order));
        lemma_without_repeats::<T, O>(rest, order);
        let inner = without_repeats(rest);
        assert(s =~= rest.push(s.last()));
        if s.len() >= 2 && s[s.len() - 2] == s.last() {
            assert(rest.last() == s.last());
            assert forall|x: T::V| #[trigger] result.contains(x) <==> s.contains(x) by {
                if s.contains(x) {
                    let i = choose|i: int| 0 <= i < s.len() && s[i] == x;
                    if i == s.len() - 1 {
                        assert(rest[rest.len() - 1] == x);
                    } else {
                        assert(rest[i] == x);
                    }
                    assert(rest.contains(x));
                }
                if result.contains(x) {
                    assert(rest.contains(x));
                    let i = choose|i: int| 0 <= i < rest.len() && rest[i] == x;
                    assert(s[i] == x);
                }
            }
        } else {
            assert(result.last() == s.last());
            if rest.len() > 0 {
                assert(rest.last() == s[s.len() - 2]);
                assert(le::<T, O>(order, s[s.len() - 2], s[s.len() - 1]));
                lemma_key_less(order.key(rest.last()), order.key(s.last()));
                assert(key_less(order.key(rest.last()), order.key(s.last())));
                assert forall|i: int| 0 <= i < inner.len() implies key_less(
                    order.key(#[trigger] inner[i]),
                    order.key(s.last()),
                ) by {
                    if i < inner.len() - 1 {
                        assert(key_less(order.key(inner[i]), order.key(inner[inner.len() - 1])));
                        lemma_key_less_transitive(order.key(inner[i]), order.key(inner.last()), order.key(s.last()));
                    }
                }
            }
            assert forall|i: int, j: int| 0 <= i < j < result.len() implies key_less(
                order.key(#[trigger] result[i]),
                order.key(#[trigger] result[j]),
            ) by {
                assert(result[i] == inner[i]);
                if j < inner.len() {
                    assert(result[j] == inner[j]);
                }
            }
            assert forall|x: T::V| #[trigger] result.contains(x) <==> s.contains(x) by {
                if s.contains(x) {
                    let i = choose|i: int| 0 <= i < s.len() && s[i] == x;
                    if i == s.len() - 1 {
                        assert(result[result.len() - 1] == x);
                    } else {
                        assert(rest[i] == x);
                        assert(inner.contains(x));
                        let k = choose|k: int| 0 <= k < inner.len() && inner[k] == x;
                        assert(result[k] == x);
                    }
                }
                if result.contains(x) {
                    let k = choose|k: int| 0 <= k < result.len() && result[k] == x;
                    if k < inner.len() {
                        assert(inner[k] == x);
                        assert(inner.contains(x));
                        let i = choose|i: int| 0 <= i < rest.len() && rest[i] == x;
                        assert(s[i] == x);
                    } else {
                        assert(s[s.len() - 1] == x);
                    }
                }
            }
        }
    }
}

/// What is left of `s` without repetitions are its elements, each once, truly in order.
pub proof fn distinct_elements_stand_once_in_order<T: DeepView, O: Order<T>>(s: Seq<T::V>, order: O)
    requires
        keys_identify::<T, O>(order),
    ensures
        strictly_in_order::<T, O>(distinct::<T, O>(s, order), order),
        forall|x: T::V| #[trigger] distinct::<T, O>(s, order).contains(x) <==> s.contains(x),
{
    sorting_is_an_ordered_rearrangement::<T, O>(s, order);
    lemma_without_repeats::<T, O>(sorted::<T, O>(s, order), order);
    assert forall|x: T::V| #[trigger] distinct::<T, O>(s, order).contains(x) <==> s.contains(x) by {
        lemma_sorted_contains::<T, O>(s, order, x);
    }
}

proof fn lemma_same_members<T: DeepView, O: Order<T>>(a: Seq<T::V>, b: Seq<T::V>, order: O)
    requires
        strictly_in_order::<T, O>(a, order),
        strictly_in_order::<T, O>(b, order),
        forall|x: T::V| #[trigger] a.contains(x) <==> b.contains(x),
    ensures
        a == b,
    decreases a.len(),
{
    if a.len() == 0 {
        if b.len() > 0 {
            assert(b.contains(b[0]));
            assert(a.contains(b[0]));
        }
        assert(a =~= b);
    } else {
        assert(a.contains(a[a.len() - 1]));
        assert(b.contains(a[a.len() - 1]));
        let i = choose|i: int| 0 <= i < b.len() && b[i] == a.last();
        assert(b.contains(b[b.len() - 1]));
        assert(a.contains(b[b.len() - 1]));
        let j = choose|j: int| 0 <= j < a.len() && a[j] == b.last();
        if i < b.len() - 1 {
            assert(key_less(order.key(b[i]), order.key(b[b.len() - 1])));
            if j < a.len() - 1 {
                assert(key_less(order.key(a[j]), order.key(a[a.len() - 1])));
            }
            lemma_key_less(order.key(a.last()), order.key(b.last()));
        }
        assert(a.last() == b.last());
        let x = a.drop_last();
        let y = b.drop_last();
        assert forall|v: T::V| #[trigger] x.contains(v) <==> y.contains(v) by {
            if x.contains(v) {
                let k = choose|k: int| 0 <= k < x.len() && x[k] == v;
                assert(a[k] == v);
                assert(key_less(order.key(a[k]), order.key(a[a.len() - 1])));
                lemma_key_less(order.key(v), order.key(v));
                assert(a.contains(v));
                let h = choose|h: int| 0 <= h < b.len() && b[h] == v;
                assert(y[h] == v);
            }
            if y.contains(v) {
                let k = choose|k: int| 0 <= k < y.len() && y[k] == v;
                assert(b[k] == v);
                assert(key_less(order.key(b[k]), order.key(b[b.len() - 1])));
                lemma_key_less(order.key(v), order.key(v));
                assert(b.contains(v));
                assert(a.contains(v));
                let h = choose|h: int| 0 <= h < a.len() && a[h] == v;
                assert(x[h] == v);
            }
        }
        lemma_same_members::<T, O>(x, y, order);
        assert(a =~= x.push(a.last()));
        assert(b =~= y.push(b.last()));
    }
}

/// Two sequences have the same distinct elements exactly where they have the same members.
pub proof fn distinct_elements_tell_the_members<T: DeepView, O: Order<T>>(a: Seq<T::V>, b: Seq<T::V>, order: O)
    requires
        keys_identify::<T, O>(order),
    ensures
        distinct::<T, O>(a, order) == distinct::<T, O>(b, order) <==> forall|x: T::V|
            #[trigger] a.contains(x) <==> b.contains(x),
{
    distinct_elements_stand_once_in_order::<T, O>(a, order);
    distinct_elements_stand_once_in_order::<T, O>(b, order);
    let x = distinct::<T, O>(a, order);
    let y = distinct::<T, O>(b, order);
    if x == y {
        assert forall|v: T::V| #[trigger] a.contains(v) <==> b.contains(v) by {
            assert(x.contains(v) <==> a.contains(v));
            assert(y.contains(v) <==> b.contains(v));
        }
    }
    if forall|v: T::V| #[trigger] a.contains(v) <==> b.contains(v) {
        assert forall|v: T::V| #[trigger] x.contains(v) <==> y.contains(v) by {
            assert(a.contains(v) <==> b.contains(v));
        }
        lemma_same_members::<T, O>(x, y, order);
    }
}

/// Sorts a vector and leaves out what repeats.
pub fn sort_distinct<T: Value, O: Order<T>>(items: Vec<T>, order: &O) -> (result: Vec<T>)
    ensures
        result.deep_view() == distinct::<T, O>(items.deep_view(), *order),
{
    let ordered = sort(items, order);
    let ghost all = ordered.deep_view();
    let mut result: Vec<T> = nothing();
    let mut i: usize = 0;
    assert(all.take(0) =~= Seq::empty());
    while i < ordered.len()
        invariant
            i <= ordered.len(),
            all == ordered.deep_view(),
            result.deep_view() == without_repeats(all.take(i as int)),
        decreases ordered.len() - i,
    {
        assert(all.take(i + 1).drop_last() =~= all.take(i as int));
        assert(all.take(i + 1).last() == ordered@[i as int].deep_view());
        if i > 0 {
            assert(all.take(i + 1)[i - 1] == ordered@[i - 1].deep_view());
        }
        if !(i > 0 && ordered[i - 1].same(&ordered[i])) {
            add_to(&mut result, ordered[i].copied());
        }
        i = i + 1;
    }
    assert(all.take(i as int) =~= all);
    result
}

/// Numbers from the smallest to the largest.
pub struct Ascending;

impl Order<u64> for Ascending {
    open spec fn key(&self, value: u64) -> Seq<Part> {
        seq![Part::Number(value as int)]
    }

    fn key_of(&self, item: &u64) -> (result: Vec<KeyPart>) {
        let result = vec![KeyPart::Number(*item as i128)];
        assert(result.deep_view() =~= self.key(item.deep_view()));
        result
    }
}

/// Texts in their order.
pub struct Alphabetical;

impl Order<String> for Alphabetical {
    open spec fn key(&self, value: Seq<char>) -> Seq<Part> {
        seq![Part::Text(value)]
    }

    fn key_of(&self, item: &String) -> (result: Vec<KeyPart>) {
        let result = vec![KeyPart::Text(item.copied())];
        assert(result.deep_view() =~= self.key(item.deep_view()));
        result
    }
}

pub proof fn lemma_texts_identify()
    ensures
        keys_identify::<String, Alphabetical>(Alphabetical),
{
    assert forall|a: Seq<char>, b: Seq<char>| #[trigger] Alphabetical.key(a) == #[trigger] Alphabetical.key(b) implies a
        == b by {
        assert(Alphabetical.key(a)[0] == Alphabetical.key(b)[0]);
    }
}

} // verus!
