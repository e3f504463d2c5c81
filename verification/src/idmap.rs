//! A map from identifiers to records that is walked in identifier order.
//!
//! The records are kept in a vector sorted strictly by key, so a key occurs
//! at most once, a lookup is a binary search, and walking the vector gives
//! the records in ascending order of their identifiers.

use vstd::prelude::*;
use vstd::utf8::encode_utf8;
use crate::text::Order;
use crate::text::lemma_bytes_lt_irreflexive;
use crate::text::lemma_bytes_lt_total;
use crate::text::lemma_bytes_lt_transitive;
use crate::text::lemma_encoding_injective;
use crate::text::order_text;
use crate::text::text_lt;

verus! {

/// A type whose values identify records: its views are totally ordered, and
/// two values can be ordered by executable code.
pub trait Key: View + Sized {
    /// The strict order of the keys' views.
    spec fn key_lt(a: Self::V, b: Self::V) -> bool;

    /// No key is below itself.
    proof fn lemma_key_lt_irreflexive(a: Self::V)
        ensures
            !Self::key_lt(a, a),
    ;

    /// The order is transitive.
    proof fn lemma_key_lt_transitive(a: Self::V, b: Self::V, c: Self::V)
        requires
            Self::key_lt(a, b),
            Self::key_lt(b, c),
        ensures
            Self::key_lt(a, c),
    ;

    /// Two different keys are ordered one way or the other.
    proof fn lemma_key_lt_total(a: Self::V, b: Self::V)
        ensures
            a == b || Self::key_lt(a, b) || Self::key_lt(b, a),
    ;

    /// Orders `self` and `other`.
    fn order(&self, other: &Self) -> (r: Order)
        ensures
            r == (if self@ == other@ {
                Order::Same
            } else if Self::key_lt(self@, other@) {
                Order::Before
            } else {
                Order::After
            }),
    ;
}

impl Key for String {
    open spec fn key_lt(a: Seq<char>, b: Seq<char>) -> bool {
        text_lt(a, b)
    }

    proof fn lemma_key_lt_irreflexive(a: Seq<char>) {
        lemma_bytes_lt_irreflexive(encode_utf8(a));
    }

    proof fn lemma_key_lt_transitive(a: Seq<char>, b: Seq<char>, c: Seq<char>) {
        lemma_bytes_lt_transitive(encode_utf8(a), encode_utf8(b), encode_utf8(c));
    }

    proof fn lemma_key_lt_total(a: Seq<char>, b: Seq<char>) {
        lemma_bytes_lt_total(encode_utf8(a), encode_utf8(b));
        lemma_encoding_injective(a, b);
    }

    fn order(&self, other: &Self) -> (r: Order) {
        order_text(self.as_str(), other.as_str())
    }
}

/// Pairs are ordered by their first part, and by the second where the first
/// parts are the same.
impl Key for (String, String) {
    open spec fn key_lt(a: (Seq<char>, Seq<char>), b: (Seq<char>, Seq<char>)) -> bool {
        text_lt(a.0, b.0) || (a.0 == b.0 && text_lt(a.1, b.1))
    }

    proof fn lemma_key_lt_irreflexive(a: (Seq<char>, Seq<char>)) {
        String::lemma_key_lt_irreflexive(a.0);
        String::lemma_key_lt_irreflexive(a.1);
    }

    proof fn lemma_key_lt_transitive(
        a: (Seq<char>, Seq<char>),
        b: (Seq<char>, Seq<char>),
        c: (Seq<char>, Seq<char>),
    ) {
        if text_lt(a.0, b.0) && text_lt(b.0, c.0) {
            String::lemma_key_lt_transitive(a.0, b.0, c.0);
        }
        if a.0 == b.0 && b.0 == c.0 {
            String::lemma_key_lt_irreflexive(a.0);
            String::lemma_key_lt_transitive(a.1, b.1, c.1);
        }
    }

    proof fn lemma_key_lt_total(a: (Seq<char>, Seq<char>), b: (Seq<char>, Seq<char>)) {
        String::lemma_key_lt_total(a.0, b.0);
        String::lemma_key_lt_total(a.1, b.1);
    }

    fn order(&self, other: &Self) -> (r: Order) {
        proof {
            String::lemma_key_lt_total(self.0@, other.0@);
            String::lemma_key_lt_total(self.1@, other.1@);
            String::lemma_key_lt_irreflexive(self.0@);
            String::lemma_key_lt_irreflexive(self.1@);
        }
        match self.0.order(&other.0) {
            Order::Before => Order::Before,
            Order::After => Order::After,
            Order::Same => self.1.order(&other.1),
        }
    }
}

/// Whether a listing is in strictly ascending order of its keys.
pub open spec fn ascending<K: Key, R>(l: Seq<(K::V, R)>) -> bool {
    forall|i: int, j: int| 0 <= i < j < l.len() ==> K::key_lt(#[trigger] l[i].0, #[trigger] l[j].0)
}

/// Whether a key occurs in a listing.
pub open spec fn listed<A, R>(l: Seq<(A, R)>, k: A) -> bool {
    exists|i: int| 0 <= i < l.len() && #[trigger] l[i].0 == k
}

/// A place at which a key occurs in a listing.
pub open spec fn place<A, R>(l: Seq<(A, R)>, k: A) -> int {
    choose|i: int| 0 <= i < l.len() && #[trigger] l[i].0 == k
}

/// The map that a listing writes down: each listed key with the record
/// beside it.
pub open spec fn listing_map<A, R>(l: Seq<(A, R)>) -> Map<A, R> {
    Map::new(|k: A| listed(l, k), |k: A| l[place(l, k)].1)
}

/// In an ascending listing a key stands at one place only, and the map
/// holds for it the record at that place.
pub proof fn lemma_listing_entry<K: Key, R>(l: Seq<(K::V, R)>, i: int)
    requires
        ascending::<K, R>(l),
        0 <= i < l.len(),
    ensures
        listed(l, l[i].0),
        place(l, l[i].0) == i,
        listing_map(l).contains_key(l[i].0),
        listing_map(l)[l[i].0] == l[i].1,
{
    let k = l[i].0;
    let p = place(l, k);
    K::lemma_key_lt_irreflexive(k);
    if p < i {
        assert(K::key_lt(l[p].0, l[i].0));
    } else if i < p {
        assert(K::key_lt(l[i].0, l[p].0));
    }
}

/// A key of the map that a listing writes down is listed, with the record
/// that the map holds for it.
pub proof fn lemma_listing_key<A, R>(l: Seq<(A, R)>, k: A)
    requires
        listing_map(l).contains_key(k),
    ensures
        0 <= place(l, k) < l.len(),
        l[place(l, k)].0 == k,
        l[place(l, k)].1 == listing_map(l)[k],
{
}

/// An ascending listing without its last entry writes down the same map
/// without the last key.
pub proof fn lemma_listing_drop_last<K: Key, R>(l: Seq<(K::V, R)>)
    requires
        ascending::<K, R>(l),
        l.len() > 0,
    ensures
        ascending::<K, R>(l.drop_last()),
        listing_map(l.drop_last()) == listing_map(l).remove(l.last().0),
{
    let rest = l.drop_last();
    let m1 = listing_map(rest);
    let m2 = listing_map(l).remove(l.last().0);
    assert forall|i: int, j: int| 0 <= i < j < rest.len() implies K::key_lt(
        #[trigger] rest[i].0,
        #[trigger] rest[j].0,
    ) by {
        assert(K::key_lt(l[i].0, l[j].0));
    }
    assert forall|x: K::V| m1.contains_key(x) == m2.contains_key(x) by {
        if listed(rest, x) {
            let i = place(rest, x);
            assert(l[i].0 == x);
            assert(K::key_lt(l[i].0, l[l.len() - 1].0));
            K::lemma_key_lt_irreflexive(x);
        }
        if listed(l, x) && x != l.last().0 {
            let i = place(l, x);
            assert(rest[i].0 == x);
        }
    }
    assert forall|x: K::V| m1.contains_key(x) implies m1[x] == m2[x] by {
        let i = place(rest, x);
        lemma_listing_entry::<K, R>(rest, i);
        lemma_listing_entry::<K, R>(l, i);
    }
    assert(m1 =~= m2);
}

/// A map is written down by one ascending listing only: the order in which
/// a map is walked is decided by what it holds.
pub proof fn lemma_listing_unique<K: Key, R>(a: Seq<(K::V, R)>, b: Seq<(K::V, R)>)
    requires
        ascending::<K, R>(a),
        ascending::<K, R>(b),
        listing_map(a) == listing_map(b),
    ensures
        a == b,
    decreases a.len(),
{
    if a.len() == 0 {
        if b.len() > 0 {
            lemma_listing_entry::<K, R>(b, 0);
            lemma_listing_key(a, b[0].0);
        }
        assert(a =~= b);
    } else {
        let last = a.len() - 1;
        lemma_listing_entry::<K, R>(a, last);
        lemma_listing_key(b, a[last].0);
        let j = place(b, a[last].0);
        if j < b.len() - 1 {
            // A key of `b` above the last key of `a` would be listed in `a`.
            let top = b[b.len() - 1].0;
            assert(K::key_lt(b[j].0, top));
            lemma_listing_entry::<K, R>(b, b.len() - 1);
            lemma_listing_key(a, top);
            let i = place(a, top);
            K::lemma_key_lt_irreflexive(top);
            if i < last {
                assert(K::key_lt(a[i].0, a[last].0));
                K::lemma_key_lt_transitive(top, a[last].0, top);
            }
        }
        lemma_listing_entry::<K, R>(b, j);
        lemma_listing_drop_last::<K, R>(a);
        lemma_listing_drop_last::<K, R>(b);
        lemma_listing_unique::<K, R>(a.drop_last(), b.drop_last());
        assert(a =~= a.drop_last().push(a[last]));
        assert(b =~= b.drop_last().push(b[j]));
    }
}

/// The views of keys and records, pair by pair.
pub open spec fn listing_of<K: View, V: View>(entries: Seq<(K, V)>) -> Seq<(K::V, V::V)> {
    Seq::new(entries.len(), |i: int| (entries[i].0@, entries[i].1@))
}

/// A map from keys to records, walked in ascending order of the keys.
pub struct IdMap<K: Key, V: View> {
    entries: Vec<(K, V)>,
}

impl<K: Key, V: View> View for IdMap<K, V> {
    type V = Map<K::V, V::V>;

    /// The records by their keys.
    open spec fn view(&self) -> Map<K::V, V::V> {
        listing_map(self.listing())
    }
}

impl<K: Key, V: View> IdMap<K, V> {
    /// The keys with their records, in the order in which they are walked.
    pub closed spec fn listing(&self) -> Seq<(K::V, V::V)> {
        listing_of(self.entries@)
    }

    /// The listing is strictly ascending.
    #[verifier::type_invariant]
    spec fn sorted(&self) -> bool {
        ascending::<K, V::V>(self.listing())
    }

    /// What holds of every map: its listing is strictly ascending, so each
    /// key is listed once.
    pub open spec fn wf(&self) -> bool {
        ascending::<K, V::V>(self.listing())
    }

    /// A map without records.
    pub fn new() -> (r: Self)
        ensures
            r.listing() == Seq::<(K::V, V::V)>::empty(),
            r@ == Map::<K::V, V::V>::empty(),
            r.wf(),
    {
        let r = IdMap { entries: Vec::new() };
        proof {
            assert(r.listing() =~= Seq::<(K::V, V::V)>::empty());
            assert(r@ =~= Map::<K::V, V::V>::empty());
        }
        r
    }

    /// The number of records.
    pub fn len(&self) -> (r: usize)
        ensures
            r == self.listing().len(),
            self.wf(),
    {
        proof {
            use_type_invariant(self);
        }
        self.entries.len()
    }

    /// Whether the map holds no record.
    pub fn is_empty(&self) -> (r: bool)
        ensures
            r == (self.listing().len() == 0),
            r == (self@ == Map::<K::V, V::V>::empty()),
    {
        proof {
            use_type_invariant(self);
            if self.listing().len() > 0 {
                lemma_listing_entry::<K, V::V>(self.listing(), 0);
            } else {
                assert(self@ =~= Map::<K::V, V::V>::empty());
            }
        }
        self.entries.len() == 0
    }

    /// The key at place `i` of the listing.
    pub fn key_at(&self, i: usize) -> (r: &K)
        requires
            i < self.listing().len(),
        ensures
            r@ == self.listing()[i as int].0,
            self@.contains_key(r@),
    {
        proof {
            use_type_invariant(self);
            lemma_listing_entry::<K, V::V>(self.listing(), i as int);
        }
        &self.entries[i].0
    }

    /// The record at place `i` of the listing.
    pub fn value_at(&self, i: usize) -> (r: &V)
        requires
            i < self.listing().len(),
        ensures
            r@ == self.listing()[i as int].1,
            self@.contains_key(self.listing()[i as int].0),
            self@[self.listing()[i as int].0] == r@,
    {
        proof {
            use_type_invariant(self);
            lemma_listing_entry::<K, V::V>(self.listing(), i as int);
        }
        &self.entries[i].1
    }

    /// Searches for a key: where it is listed, its place; where it is not,
    /// the place at which it would stand.
    fn locate(&self, key: &K) -> (r: (bool, usize))
        ensures
            r.1 <= self.listing().len(),
            r.0 ==> r.1 < self.listing().len() && self.listing()[r.1 as int].0 == key@,
            !r.0 ==> !listed(self.listing(), key@),
            forall|i: int| 0 <= i < r.1 ==> K::key_lt(#[trigger] self.listing()[i].0, key@),
            forall|i: int|
                r.1 <= i < self.listing().len() && !(r.0 && i == r.1) ==> K::key_lt(
                    key@,
                    #[trigger] self.listing()[i].0,
                ),
    {
        proof {
            use_type_invariant(self);
        }
        let ghost l = self.listing();
        let mut lo: usize = 0;
        let mut hi: usize = self.entries.len();
        while lo < hi
            invariant
                l == self.listing(),
                ascending::<K, V::V>(l),
                lo <= hi <= l.len(),
                l.len() == self.entries@.len(),
                forall|i: int| 0 <= i < lo ==> K::key_lt(#[trigger] l[i].0, key@),
                forall|i: int| hi <= i < l.len() ==> K::key_lt(key@, #[trigger] l[i].0),
            decreases hi - lo,
        {
            let mid: usize = lo + (hi - lo) / 2;
            assert(l[mid as int].0 == self.entries@[mid as int].0@);
            match self.entries[mid].0.order(key) {
                Order::Same => {
                    proof {
                        assert forall|i: int| mid < i < l.len() implies K::key_lt(
                            key@,
                            #[trigger] l[i].0,
                        ) by {
                            assert(K::key_lt(l[mid as int].0, l[i].0));
                        }
                        assert forall|i: int| 0 <= i < mid implies K::key_lt(
                            #[trigger] l[i].0,
                            key@,
                        ) by {
                            assert(K::key_lt(l[i].0, l[mid as int].0));
                        }
                    }
                    return (true, mid);
                },
                Order::Before => {
                    proof {
                        assert forall|i: int| 0 <= i < mid + 1 implies K::key_lt(
                            #[trigger] l[i].0,
                            key@,
                        ) by {
                            if i < mid {
                                assert(K::key_lt(l[i].0, l[mid as int].0));
                                K::lemma_key_lt_transitive(l[i].0, l[mid as int].0, key@);
                            }
                        }
                    }
                    lo = mid + 1;
                },
                Order::After => {
                    proof {
                        K::lemma_key_lt_total(l[mid as int].0, key@);
                        assert forall|i: int| mid <= i < l.len() implies K::key_lt(
                            key@,
                            #[trigger] l[i].0,
                        ) by {
                            if mid < i {
                                assert(K::key_lt(l[mid as int].0, l[i].0));
                                K::lemma_key_lt_transitive(key@, l[mid as int].0, l[i].0);
                            }
                        }
                    }
                    hi = mid;
                },
            }
        }
        proof {
            assert forall|i: int| 0 <= i < l.len() implies #[trigger] l[i].0 != key@ by {
                K::lemma_key_lt_irreflexive(key@);
            }
        }
        (false, lo)
    }

    /// Whether the map holds a record for a key.
    pub fn contains_key(&self, key: &K) -> (r: bool)
        ensures
            r == self@.contains_key(key@),
    {
        let (found, at) = self.locate(key);
        proof {
            use_type_invariant(self);
            if found {
                lemma_listing_entry::<K, V::V>(self.listing(), at as int);
            }
        }
        found
    }

    /// The record of a key, if the map holds one.
    pub fn get(&self, key: &K) -> (r: Option<&V>)
        ensures
            r is Some == self@.contains_key(key@),
            r is Some ==> r->0@ == self@[key@],
    {
        let (found, at) = self.locate(key);
        proof {
            use_type_invariant(self);
            if found {
                lemma_listing_entry::<K, V::V>(self.listing(), at as int);
            }
        }
        if found {
            Some(&self.entries[at].1)
        } else {
            None
        }
    }

    /// Gives a key a record: a new one where the key had none, else in place
    /// of the one it had. Returns whether the key had one.
    pub fn insert(&mut self, key: K, value: V) -> (r: bool)
        ensures
            final(self)@ == old(self)@.insert(key@, value@),
            r == old(self)@.contains_key(key@),
            final(self).wf(),
            final(self).listing().len() == old(self).listing().len() + (if r { 0int } else { 1int }),
    {
        let (found, at) = self.locate(&key);
        let ghost before = self.listing();
        let ghost k = key@;
        let ghost v = value@;
        proof {
            use_type_invariant(&*self);
        }
        let mut entries: Vec<(K, V)> = Vec::new();
        core::mem::swap(&mut self.entries, &mut entries);
        if found {
            entries.set(at, (key, value));
        } else {
            entries.insert(at, (key, value));
        }
        proof {
            let after = listing_of(entries@);
            if found {
                assert(after =~= before.update(at as int, (k, v)));
                assert forall|i: int, j: int| 0 <= i < j < after.len() implies K::key_lt(
                    #[trigger] after[i].0,
                    #[trigger] after[j].0,
                ) by {
                    assert(K::key_lt(before[i].0, before[j].0));
                }
                lemma_update_map::<K, V::V>(before, after, at as int, v);
            } else {
                assert(after =~= before.insert(at as int, (k, v)));
                lemma_insert_map::<K, V::V>(before, after, at as int, k, v);
            }
        }
        self.entries = entries;
        found
    }
}

/// Replacing the record at one place of an ascending listing replaces it in
/// the map.
proof fn lemma_update_map<K: Key, R>(before: Seq<(K::V, R)>, after: Seq<(K::V, R)>, at: int, v: R)
    requires
        ascending::<K, R>(before),
        ascending::<K, R>(after),
        0 <= at < before.len(),
        after == before.update(at, (before[at].0, v)),
    ensures
        listing_map(after) == listing_map(before).insert(before[at].0, v),
{
    let k = before[at].0;
    let m1 = listing_map(after);
    let m2 = listing_map(before).insert(k, v);
    assert forall|x: K::V| m1.contains_key(x) == m2.contains_key(x) by {
        if listed(after, x) {
            let i = place(after, x);
            assert(before[i].0 == x);
        }
        if listed(before, x) {
            let i = place(before, x);
            assert(after[i].0 == x);
        }
        if x == k {
            assert(after[at].0 == x);
        }
    }
    assert forall|x: K::V| m1.contains_key(x) implies m1[x] == m2[x] by {
        let i = place(after, x);
        lemma_listing_entry::<K, R>(after, i);
        if i != at {
            lemma_listing_entry::<K, R>(before, i);
            lemma_listing_entry::<K, R>(before, at);
            assert(before[i].0 == x);
        }
    }
    assert(m1 =~= m2);
}

/// Putting a key that is not listed at its place in an ascending listing
/// keeps the listing ascending and adds the key to the map.
proof fn lemma_insert_map<K: Key, R>(
    before: Seq<(K::V, R)>,
    after: Seq<(K::V, R)>,
    at: int,
    k: K::V,
    v: R,
)
    requires
        ascending::<K, R>(before),
        0 <= at <= before.len(),
        after == before.insert(at, (k, v)),
        forall|i: int| 0 <= i < at ==> K::key_lt(#[trigger] before[i].0, k),
        forall|i: int| at <= i < before.len() ==> K::key_lt(k, #[trigger] before[i].0),
    ensures
        ascending::<K, R>(after),
        listing_map(after) == listing_map(before).insert(k, v),
{
    assert forall|i: int, j: int| 0 <= i < j < after.len() implies K::key_lt(
        #[trigger] after[i].0,
        #[trigger] after[j].0,
    ) by {
        if i < at && j > at {
            assert(after[i] == before[i]);
            assert(after[j] == before[j - 1]);
            if i < j - 1 {
                assert(K::key_lt(before[i].0, before[j - 1].0));
            } else {
                K::lemma_key_lt_transitive(before[i].0, k, before[j - 1].0);
            }
        } else if i < at && j < at {
            assert(K::key_lt(before[i].0, before[j].0));
        } else if i > at {
            assert(K::key_lt(before[i - 1].0, before[j - 1].0));
        } else if i == at {
            assert(after[j] == before[j - 1]);
        } else {
            assert(after[i] == before[i]);
        }
    }
    let m1 = listing_map(after);
    let m2 = listing_map(before).insert(k, v);
    assert forall|x: K::V| m1.contains_key(x) == m2.contains_key(x) by {
        if listed(after, x) {
            let i = place(after, x);
            if i < at {
                assert(before[i].0 == x);
            } else if i > at {
                assert(before[i - 1].0 == x);
            }
        }
        if listed(before, x) {
            let i = place(before, x);
            if i < at {
                assert(after[i].0 == x);
            } else {
                assert(after[i + 1].0 == x);
            }
        }
        if x == k {
            assert(after[at].0 == x);
        }
    }
    assert forall|x: K::V| m1.contains_key(x) implies m1[x] == m2[x] by {
        let i = place(after, x);
        lemma_listing_entry::<K, R>(after, i);
        if i < at {
            lemma_listing_entry::<K, R>(before, i);
            K::lemma_key_lt_irreflexive(k);
        } else if i > at {
            lemma_listing_entry::<K, R>(before, i - 1);
            K::lemma_key_lt_irreflexive(k);
        }
    }
    assert(m1 =~= m2);
}

} // verus!
