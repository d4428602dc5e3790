//! Counts, sums and groups.
use crate::order::{sort, tally, KeyPart, Order, Part};
use crate::value::Value;
use vstd::prelude::*;

verus! {

/// Something that takes up storage.
pub trait Measured: DeepView {
    spec fn size(value: Self::V) -> u64;

    fn bytes(&self) -> (result: u64)
        ensures
            result == Self::size(self.deep_view()),
    ;
}

/// The storage that all of `items` take up.
pub open spec fn total<T: Measured>(items: Seq<T::V>) -> nat
    decreases items.len(),
{
    if items.len() == 0 {
        0
    } else {
        total::<T>(items.drop_last()) + T::size(items.last()) as nat
    }
}

/// A number, or the largest `u64` where it is larger.
pub open spec fn capped(n: nat) -> u64 {
    if n <= u64::MAX {
        n as u64
    } else {
        u64::MAX
    }
}

proof fn lemma_total_grows<T: Measured>(items: Seq<T::V>, i: int)
    requires
        0 <= i <= items.len(),
    ensures
        total::<T>(items.take(i)) <= total::<T>(items),
    decreases items.len() - i,
{
    if i < items.len() {
        lemma_total_grows::<T>(items, i + 1);
        assert(items.take(i + 1).drop_last() =~= items.take(i));
    } else {
        assert(items.take(i) =~= items);
    }
}

/// The storage that all of `items` take up.
pub fn total_of<T: Measured>(items: &Vec<T>) -> (result: u64)
    requires
        total::<T>(items.deep_view()) <= u64::MAX,
    ensures
        result == total::<T>(items.deep_view()),
{
    let ghost all = items.deep_view();
    let mut sum: u64 = 0;
    let mut i: usize = 0;
    assert(all.take(0) =~= Seq::empty());
    while i < items.len()
        invariant
            all == items.deep_view(),
            total::<T>(all) <= u64::MAX,
            i <= items.len(),
            sum == total::<T>(all.take(i as int)),
        decreases items.len() - i,
    {
        proof {
            lemma_total_grows::<T>(all, i + 1);
            assert(all.take(i + 1).drop_last() =~= all.take(i as int));
        }
        sum = sum + items[i].bytes();
        i = i + 1;
    }
    assert(all.take(i as int) =~= all);
    sum
}

/// The storage that all of `items` take up, or the largest `u64` where it is more.
pub fn capped_total_of<T: Measured>(items: &Vec<T>) -> (result: u64)
    ensures
        result == capped(total::<T>(items.deep_view())),
{
    let ghost all = items.deep_view();
    let mut sum: u64 = 0;
    let mut i: usize = 0;
    assert(all.take(0) =~= Seq::empty());
    while i < items.len()
        invariant
            all == items.deep_view(),
            i <= items.len(),
            sum == capped(total::<T>(all.take(i as int))),
        decreases items.len() - i,
    {
        proof {
            assert(all.take(i + 1).drop_last() =~= all.take(i as int));
        }
        sum = sum.saturating_add(items[i].bytes());
        i = i + 1;
    }
    assert(all.take(i as int) =~= all);
    sum
}

/// How often `x` stands in `s`.
pub open spec fn occurrences<L>(s: Seq<L>, x: L) -> nat
    decreases s.len(),
{
    if s.len() == 0 {
        0
    } else {
        occurrences(s.drop_last(), x) + if s.last() == x { 1nat } else { 0nat }
    }
}

pub proof fn lemma_occurrences_bound<L>(s: Seq<L>, x: L)
    ensures
        occurrences(s, x) <= s.len(),
    decreases s.len(),
{
    if s.len() > 0 {
        lemma_occurrences_bound(s.drop_last(), x);
    }
}

/// Two values share the places of a sequence.
pub proof fn lemma_two_counts<L>(s: Seq<L>, x: L, y: L)
    requires
        x != y,
    ensures
        occurrences(s, x) + occurrences(s, y) <= s.len(),
    decreases s.len(),
{
    if s.len() > 0 {
        lemma_two_counts(s.drop_last(), x, y);
    }
}

/// What stands in a sequence occurs in it.
pub proof fn lemma_occurs<L>(s: Seq<L>, x: L)
    ensures
        occurrences(s, x) > 0 <==> s.contains(x),
    decreases s.len(),
{
    if s.len() > 0 {
        lemma_occurs(s.drop_last(), x);
        if s.last() == x {
            assert(s[s.len() - 1] == x);
        }
        if s.drop_last().contains(x) {
            let i = choose|i: int| 0 <= i < s.drop_last().len() && s.drop_last()[i] == x;
            assert(s[i] == x);
        }
        if s.contains(x) && s.last() != x {
            let i = choose|i: int| 0 <= i < s.len() && s[i] == x;
            assert(s.drop_last()[i] == x);
        }
    }
}

/// How often a plain label stands among labels.
pub fn count_of<L: Value>(labels: &Vec<L>, x: &L) -> (result: usize)
    ensures
        result == occurrences(labels.deep_view(), x.deep_view()),
{
    let ghost all = labels.deep_view();
    let mut count: usize = 0;
    let mut i: usize = 0;
    assert(all.take(0) =~= Seq::empty());
    while i < labels.len()
        invariant
            all == labels.deep_view(),
            i <= labels.len(),
            count <= i,
            count == occurrences(all.take(i as int), x.deep_view()),
        decreases labels.len() - i,
    {
        assert(all.take(i + 1).drop_last() =~= all.take(i as int));
        if labels[i].same(x) {
            count = count + 1;
        }
        i = i + 1;
    }
    assert(all.take(i as int) =~= all);
    count
}

/// An item's group and its size.
pub type Entry = (Seq<char>, u64);

/// The items of the group `key`.
pub open spec fn group_count(entries: Seq<Entry>, key: Seq<char>) -> nat
    decreases entries.len(),
{
    if entries.len() == 0 {
        0
    } else {
        group_count(entries.drop_last(), key) + if entries.last().0 == key { 1nat } else { 0nat }
    }
}

/// The storage that the items of the group `key` take up.
pub open spec fn group_bytes(entries: Seq<Entry>, key: Seq<char>) -> nat
    decreases entries.len(),
{
    if entries.len() == 0 {
        0
    } else {
        group_bytes(entries.drop_last(), key) + if entries.last().0 == key {
            entries.last().1 as nat
        } else {
            0nat
        }
    }
}

/// The storage that all entries take up.
pub open spec fn entry_bytes(entries: Seq<Entry>) -> nat
    decreases entries.len(),
{
    if entries.len() == 0 {
        0
    } else {
        entry_bytes(entries.drop_last()) + entries.last().1 as nat
    }
}

/// A group of items: what they have in common, how many they are, and the storage they take up.
#[derive(Clone, Debug, PartialEq, Eq)]
pub struct StorageBucket {
    pub key: String,
    pub artifact_count: usize,
    pub bytes: u64,
}

/// The contents of [`StorageBucket`].
#[verifier::ext_equal]
pub struct StorageBucketView {
    pub key: Seq<char>,
    pub artifact_count: usize,
    pub bytes: u64,
}

impl DeepView for StorageBucket {
    type V = StorageBucketView;

    open spec fn deep_view(&self) -> StorageBucketView {
        StorageBucketView { key: self.key@, artifact_count: self.artifact_count, bytes: self.bytes }
    }
}

/// Largest groups first; groups of one size by their keys.
pub struct LargestFirst;

impl Order<StorageBucket> for LargestFirst {
    open spec fn key(&self, value: StorageBucketView) -> Seq<Part> {
        seq![Part::Number(-(value.bytes as int)), Part::Text(value.key)]
    }

    fn key_of(&self, item: &StorageBucket) -> (result: Vec<KeyPart>) {
        let falling: i128 = -(item.bytes as i128);
        let result = vec![KeyPart::Number(falling), KeyPart::Text(item.key.clone())];
        assert(result.deep_view() =~= self.key(item.deep_view()));
        result
    }
}

/// Whether `buckets` holds each group of `entries` once, with its count and its bytes.
pub open spec fn groups(entries: Seq<Entry>, buckets: Seq<StorageBucketView>) -> bool {
    &&& forall|i: int|
        0 <= i < buckets.len() ==> {
            let bucket = #[trigger] buckets[i];
            &&& bucket.artifact_count == group_count(entries, bucket.key)
            &&& bucket.bytes == group_bytes(entries, bucket.key)
            &&& bucket.artifact_count > 0
        }
    &&& forall|i: int, j: int|
        0 <= i < j < buckets.len() ==> (#[trigger] buckets[i]).key != (#[trigger] buckets[j]).key
    &&& forall|k: int|
        0 <= k < entries.len() ==> exists|i: int|
            0 <= i < buckets.len() && (#[trigger] buckets[i]).key == (#[trigger] entries[k]).0
}

proof fn lemma_group_bytes_bound(entries: Seq<Entry>, key: Seq<char>)
    ensures
        group_bytes(entries, key) <= entry_bytes(entries),
        group_count(entries, key) <= entries.len(),
    decreases entries.len(),
{
    if entries.len() > 0 {
        lemma_group_bytes_bound(entries.drop_last(), key);
    }
}

proof fn lemma_entry_bytes_grow(entries: Seq<Entry>, i: int)
    requires
        0 <= i <= entries.len(),
    ensures
        entry_bytes(entries.take(i)) <= entry_bytes(entries),
    decreases entries.len() - i,
{
    if i < entries.len() {
        lemma_entry_bytes_grow(entries, i + 1);
        assert(entries.take(i + 1).drop_last() =~= entries.take(i));
    } else {
        assert(entries.take(i) =~= entries);
    }
}

proof fn lemma_no_group(entries: Seq<Entry>, key: Seq<char>)
    requires
        forall|k: int| 0 <= k < entries.len() ==> (#[trigger] entries[k]).0 != key,
    ensures
        group_count(entries, key) == 0,
        group_bytes(entries, key) == 0,
    decreases entries.len(),
{
    if entries.len() > 0 {
        assert(entries.last() == entries[entries.len() - 1]);
        assert forall|k: int| 0 <= k < entries.drop_last().len() implies (#[trigger] entries.drop_last()[k]).0
            != key by {
            assert(entries.drop_last()[k] == entries[k]);
        }
        lemma_no_group(entries.drop_last(), key);
    }
}

/// The items of all groups.
pub open spec fn counted(buckets: Seq<StorageBucketView>) -> nat
    decreases buckets.len(),
{
    if buckets.len() == 0 {
        0
    } else {
        counted(buckets.drop_last()) + buckets.last().artifact_count as nat
    }
}

/// The storage that the items of all groups take up.
pub open spec fn weighed(buckets: Seq<StorageBucketView>) -> nat
    decreases buckets.len(),
{
    if buckets.len() == 0 {
        0
    } else {
        weighed(buckets.drop_last()) + buckets.last().bytes as nat
    }
}

/// The groups add up to what was grouped: each item is counted once, and so is its storage.
pub proof fn groups_add_up(entries: Seq<Entry>, buckets: Seq<StorageBucketView>)
    requires
        groups(entries, buckets),
    ensures
        counted(buckets) == entries.len(),
        weighed(buckets) == entry_bytes(entries),
{
    lemma_groups_add_up(entries, buckets);
    lemma_buckets_hold(entries, buckets);
}

/// The items of the groups that `buckets` names.
spec fn named_count(entries: Seq<Entry>, buckets: Seq<StorageBucketView>) -> nat
    decreases buckets.len(),
{
    if buckets.len() == 0 {
        0
    } else {
        named_count(entries, buckets.drop_last()) + group_count(entries, buckets.last().key)
    }
}

spec fn named_bytes(entries: Seq<Entry>, buckets: Seq<StorageBucketView>) -> nat
    decreases buckets.len(),
{
    if buckets.len() == 0 {
        0
    } else {
        named_bytes(entries, buckets.drop_last()) + group_bytes(entries, buckets.last().key)
    }
}

proof fn lemma_buckets_hold(entries: Seq<Entry>, buckets: Seq<StorageBucketView>)
    requires
        forall|i: int|
            0 <= i < buckets.len() ==> (#[trigger] buckets[i]).artifact_count == group_count(entries, buckets[i].key)
                && buckets[i].bytes == group_bytes(entries, buckets[i].key),
    ensures
        counted(buckets) == named_count(entries, buckets),
        weighed(buckets) == named_bytes(entries, buckets),
    decreases buckets.len(),
{
    if buckets.len() > 0 {
        let rest = buckets.drop_last();
        assert(buckets.last() == buckets[buckets.len() - 1]);
        assert forall|i: int| 0 <= i < rest.len() implies (#[trigger] rest[i]).artifact_count == group_count(
            entries,
            rest[i].key,
        ) && rest[i].bytes == group_bytes(entries, rest[i].key) by {
            assert(rest[i] == buckets[i]);
        }
        lemma_buckets_hold(entries, rest);
    }
}

/// One more entry adds to the one bucket that is named like it.
proof fn lemma_one_more(entries: Seq<Entry>, buckets: Seq<StorageBucketView>, at: int)
    requires
        entries.len() > 0,
        forall|i: int, j: int|
            0 <= i < j < buckets.len() ==> (#[trigger] buckets[i]).key != (#[trigger] buckets[j]).key,
        0 <= at < buckets.len() ==> buckets[at].key == entries.last().0,
        !(0 <= at < buckets.len()) ==> forall|i: int|
            0 <= i < buckets.len() ==> (#[trigger] buckets[i]).key != entries.last().0,
    ensures
        named_count(entries, buckets) == named_count(entries.drop_last(), buckets) + (if 0 <= at < buckets.len() {
            1nat
        } else {
            0nat
        }),
        named_bytes(entries, buckets) == named_bytes(entries.drop_last(), buckets) + (if 0 <= at < buckets.len() {
            entries.last().1 as nat
        } else {
            0nat
        }),
    decreases buckets.len(),
{
    if buckets.len() > 0 {
        let rest = buckets.drop_last();
        assert(buckets.last() == buckets[buckets.len() - 1]);
        assert forall|i: int, j: int| 0 <= i < j < rest.len() implies (#[trigger] rest[i]).key
            != (#[trigger] rest[j]).key by {
            assert(rest[i] == buckets[i]);
            assert(rest[j] == buckets[j]);
        }
        assert forall|i: int| 0 <= i < rest.len() && i != at implies (#[trigger] rest[i]).key != entries.last().0 by {
            assert(rest[i] == buckets[i]);
            if 0 <= at < buckets.len() {
                if i < at {
                    assert(buckets[i].key != buckets[at].key);
                } else {
                    assert(buckets[at].key != buckets[i].key);
                }
            }
        }
        if 0 <= at < rest.len() {
            assert(rest[at] == buckets[at]);
        }
        lemma_one_more(entries, rest, at);
    }
}

proof fn lemma_groups_add_up(entries: Seq<Entry>, buckets: Seq<StorageBucketView>)
    requires
        forall|i: int, j: int|
            0 <= i < j < buckets.len() ==> (#[trigger] buckets[i]).key != (#[trigger] buckets[j]).key,
        forall|k: int|
            0 <= k < entries.len() ==> exists|i: int|
                0 <= i < buckets.len() && (#[trigger] buckets[i]).key == (#[trigger] entries[k]).0,
    ensures
        named_count(entries, buckets) == entries.len(),
        named_bytes(entries, buckets) == entry_bytes(entries),
    decreases entries.len(),
{
    if entries.len() == 0 {
        lemma_nothing_named(entries, buckets);
    } else {
        let rest = entries.drop_last();
        assert(entries.last() == entries[entries.len() - 1]);
        assert forall|k: int| 0 <= k < rest.len() implies exists|i: int|
            0 <= i < buckets.len() && (#[trigger] buckets[i]).key == (#[trigger] rest[k]).0 by {
            assert(rest[k] == entries[k]);
        }
        lemma_groups_add_up(rest, buckets);
        let at = choose|i: int| 0 <= i < buckets.len() && (#[trigger] buckets[i]).key == entries.last().0;
        lemma_one_more(entries, buckets, at);
    }
}

proof fn lemma_nothing_named(entries: Seq<Entry>, buckets: Seq<StorageBucketView>)
    requires
        entries.len() == 0,
    ensures
        named_count(entries, buckets) == 0,
        named_bytes(entries, buckets) == 0,
    decreases buckets.len(),
{
    if buckets.len() > 0 {
        lemma_nothing_named(entries, buckets.drop_last());
    }
}

/// The groups of the entries, the largest first.
pub fn grouped(keys: Vec<String>, sizes: Vec<u64>) -> (result: Vec<StorageBucket>)
    requires
        keys.len() == sizes.len(),
        entry_bytes(Seq::new(keys@.len(), |i: int| (keys@[i]@, sizes@[i]))) <= u64::MAX,
    ensures
        groups(Seq::new(keys@.len(), |i: int| (keys@[i]@, sizes@[i])), result.deep_view()),
        crate::order::in_order::<StorageBucket, LargestFirst>(result.deep_view(), LargestFirst),
{
    let ghost entries: Seq<Entry> = Seq::new(keys@.len(), |i: int| (keys@[i]@, sizes@[i]));
    let mut buckets: Vec<StorageBucket> = Vec::new();
    let mut n: usize = 0;
    while n < keys.len()
        invariant
            n <= keys.len(),
            keys.len() == sizes.len(),
            entries == Seq::new(keys@.len(), |i: int| (keys@[i]@, sizes@[i])),
            entry_bytes(entries) <= u64::MAX,
            groups(entries.take(n as int), buckets.deep_view()),
        decreases keys.len() - n,
    {
        let ghost before = entries.take(n as int);
        let ghost after = entries.take(n + 1);
        let ghost key = keys@[n as int]@;
        let ghost old_buckets = buckets.deep_view();
        proof {
            assert(after.drop_last() =~= before);
            assert(after.last() == entries[n as int]);
            assert(entries[n as int] == (key, sizes@[n as int]));
            lemma_entry_bytes_grow(entries, n + 1);
            lemma_group_bytes_bound(after, key);
        }
        let mut at: usize = 0;
        while at < buckets.len() && !buckets[at].key.same(&keys[n])
            invariant
                n < keys.len(),
                key == keys@[n as int]@,
                at <= buckets.len(),
                old_buckets == buckets.deep_view(),
                forall|i: int| 0 <= i < at ==> (#[trigger] old_buckets[i]).key != key,
            decreases buckets.len() - at,
        {
            at = at + 1;
        }
        if at < buckets.len() {
            assert(old_buckets[at as int].key == key);
            let artifact_count: usize = buckets[at].artifact_count + 1;
            let bytes: u64 = buckets[at].bytes + sizes[n];
            let bucket = StorageBucket { key: keys[n].copied(), artifact_count, bytes };
            let ghost changed = bucket.deep_view();
            buckets.set(at, bucket);
            proof {
                let new_buckets = buckets.deep_view();
                assert(new_buckets =~= old_buckets.update(at as int, changed));
                assert forall|k: int| 0 <= k < after.len() implies exists|i: int|
                    0 <= i < new_buckets.len() && (#[trigger] new_buckets[i]).key == (#[trigger] after[k]).0 by {
                    if k < n {
                        assert(before[k] == after[k]);
                        let i = choose|i: int|
                            0 <= i < old_buckets.len() && (#[trigger] old_buckets[i]).key == before[k].0;
                        assert(new_buckets[i].key == after[k].0);
                    } else {
                        assert(new_buckets[at as int].key == after[k].0);
                    }
                }
            }
        } else {
            let bucket = StorageBucket { key: keys[n].copied(), artifact_count: 1, bytes: sizes[n] };
            let ghost added = bucket.deep_view();
            buckets.push(bucket);
            proof {
                assert forall|k: int| 0 <= k < before.len() implies (#[trigger] before[k]).0 != key by {
                    let i = choose|i: int|
                        0 <= i < old_buckets.len() && (#[trigger] old_buckets[i]).key == before[k].0;
                    assert(old_buckets[i].key != key);
                }
                lemma_no_group(before, key);
                let new_buckets = buckets.deep_view();
                assert(new_buckets =~= old_buckets.push(added));
                assert forall|k: int| 0 <= k < after.len() implies exists|i: int|
                    0 <= i < new_buckets.len() && (#[trigger] new_buckets[i]).key == (#[trigger] after[k]).0 by {
                    if k < n {
                        assert(before[k] == after[k]);
                        let i = choose|i: int|
                            0 <= i < old_buckets.len() && (#[trigger] old_buckets[i]).key == before[k].0;
                        assert(new_buckets[i].key == after[k].0);
                    } else {
                        assert(new_buckets[old_buckets.len() as int].key == after[k].0);
                    }
                }
            }
        }
        n = n + 1;
    }
    assert(entries.take(n as int) =~= entries);
    let ghost unsorted = buckets.deep_view();
    let result = sort(buckets, &LargestFirst);
    proof {
        lemma_groups_sorted(entries, unsorted);
    }
    result
}

proof fn lemma_groups_sorted(entries: Seq<Entry>, buckets: Seq<StorageBucketView>)
    requires
        groups(entries, buckets),
    ensures
        groups(entries, crate::order::sorted::<StorageBucket, LargestFirst>(buckets, LargestFirst)),
        crate::order::in_order::<StorageBucket, LargestFirst>(
            crate::order::sorted::<StorageBucket, LargestFirst>(buckets, LargestFirst),
            LargestFirst,
        ),
{
    broadcast use vstd::seq_lib::group_to_multiset_ensures;

    let result = crate::order::sorted::<StorageBucket, LargestFirst>(buckets, LargestFirst);
    crate::order::sorting_is_an_ordered_rearrangement::<StorageBucket, LargestFirst>(buckets, LargestFirst);
    assert forall|x: StorageBucketView| #[trigger] result.contains(x) <==> buckets.contains(x) by {
        crate::order::lemma_sorted_contains::<StorageBucket, LargestFirst>(buckets, LargestFirst, x);
    }
    assert forall|i: int| 0 <= i < result.len() implies {
        let bucket = #[trigger] result[i];
        &&& bucket.artifact_count == group_count(entries, bucket.key)
        &&& bucket.bytes == group_bytes(entries, bucket.key)
        &&& bucket.artifact_count > 0
    } by {
        assert(result.contains(result[i]));
        let j = choose|j: int| 0 <= j < buckets.len() && buckets[j] == result[i];
        assert(buckets[j] == result[i]);
    }
    assert forall|k: int| 0 <= k < entries.len() implies exists|i: int|
        0 <= i < result.len() && (#[trigger] result[i]).key == (#[trigger] entries[k]).0 by {
        let j = choose|j: int| 0 <= j < buckets.len() && (#[trigger] buckets[j]).key == entries[k].0;
        assert(buckets.contains(buckets[j]));
        assert(result.contains(buckets[j]));
        let i = choose|i: int| 0 <= i < result.len() && result[i] == buckets[j];
        assert(result[i].key == entries[k].0);
    }
    assert forall|i: int, j: int| 0 <= i < j < result.len() implies (#[trigger] result[i]).key != (
    #[trigger] result[j]).key by {
        if result[i].key == result[j].key {
            assert(result.contains(result[i]) && result.contains(result[j]));
            let a = choose|a: int| 0 <= a < buckets.len() && buckets[a] == result[i];
            let b = choose|b: int| 0 <= b < buckets.len() && buckets[b] == result[j];
            assert(a == b);
            assert(buckets.no_duplicates());
            buckets.lemma_multiset_has_no_duplicates();
            result.lemma_multiset_has_no_duplicates_conv();
            assert(false);
        }
    }
}

/// The groups of given items are one and the same list, whatever made it: the largest first,
/// groups of one size by their keys.
pub proof fn grouping_is_unique(entries: Seq<Entry>, a: Seq<StorageBucketView>, b: Seq<StorageBucketView>, i: int)
    requires
        groups(entries, a),
        groups(entries, b),
        0 <= i < a.len(),
    ensures
        b.contains(a[i]),
{
    lemma_present(entries, a[i].key);
    let k = choose|k: int| 0 <= k < entries.len() && (#[trigger] entries[k]).0 == a[i].key;
    let j = choose|j: int| 0 <= j < b.len() && (#[trigger] b[j]).key == entries[k].0;
    assert(b[j] =~= a[i]);
}

proof fn lemma_present(entries: Seq<Entry>, key: Seq<char>)
    requires
        group_count(entries, key) > 0,
    ensures
        exists|k: int| 0 <= k < entries.len() && (#[trigger] entries[k]).0 == key,
    decreases entries.len(),
{
    if entries.last().0 == key {
        assert(entries[entries.len() - 1].0 == key);
    } else {
        lemma_present(entries.drop_last(), key);
        let k = choose|k: int| 0 <= k < entries.drop_last().len() && (#[trigger] entries.drop_last()[k]).0 == key;
        assert(entries[k].0 == key);
    }
}

/// A value occurs as often as elements are equal to it.
pub proof fn occurrences_are_counted<L>(s: Seq<L>, x: L)
    ensures
        occurrences(s, x) == tally(s, |y: L| y == x),
    decreases s.len(),
{
    if s.len() > 0 {
        occurrences_are_counted(s.drop_last(), x);
    }
}

/// A number stays itself as far as a `u64` goes, and is the largest one beyond.
pub proof fn a_cap_lowers_only_what_does_not_fit(n: nat)
    ensures
        n <= 0xffff_ffff_ffff_ffff ==> capped(n) == n,
        n > 0xffff_ffff_ffff_ffff ==> capped(n) == 0xffff_ffff_ffff_ffffu64,
{
}

} // verus!
