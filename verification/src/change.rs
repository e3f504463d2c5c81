//! Change records and the rule by which two observations are merged into
//! them.
//!
//! A change record holds what the first and what the second observation said
//! of one identifier. A side that saw nothing of the identifier is left at
//! its zero value. An observation is merged row by row. The first row of an
//! identifier decides, whatever its values: it makes the record where there
//! is none and fills its side of it. Every later row of that identifier in
//! the same merge repeats the identifier and changes nothing.

use vstd::prelude::*;

verus! {

/// Which of the two observations of a difference.
#[derive(Clone, Copy, Debug, PartialEq, Eq, Structural)]
pub enum Side {
    First,
    Second,
}

impl Side {
    /// The opposite side.
    pub open spec fn other(self) -> Side {
        match self {
            Side::First => Side::Second,
            Side::Second => Side::First,
        }
    }
}

/// What the two observations said of one identifier.
pub struct Sides<S> {
    pub first: S,
    pub second: S,
}

impl<S> Sides<S> {
    /// A record of which neither side has seen anything.
    pub open spec fn blank(zero: S) -> Sides<S> {
        Sides { first: zero, second: zero }
    }

    /// What one side said.
    pub open spec fn get(self, side: Side) -> S {
        match side {
            Side::First => self.first,
            Side::Second => self.second,
        }
    }

    /// The record with one side replaced.
    pub open spec fn set(self, side: Side, value: S) -> Sides<S> {
        match side {
            Side::First => Sides { first: value, second: self.second },
            Side::Second => Sides { first: self.first, second: value },
        }
    }

    /// The record read in the opposite direction.
    pub open spec fn swapped(self) -> Sides<S> {
        Sides { first: self.second, second: self.first }
    }
}

/// The record of an identifier, blank where it has none.
pub open spec fn record_of<K, S>(m: Map<K, Sides<S>>, k: K, zero: S) -> Sides<S> {
    if m.contains_key(k) {
        m[k]
    } else {
        Sides::blank(zero)
    }
}

/// The records after one row is merged in, where `seen` holds the
/// identifiers that the merge has met before the row.
pub open spec fn merge_row<K, S>(
    m: Map<K, Sides<S>>,
    seen: Set<K>,
    k: K,
    v: S,
    zero: S,
    side: Side,
) -> Map<K, Sides<S>> {
    if seen.contains(k) {
        m
    } else {
        m.insert(k, record_of(m, k, zero).set(side, v))
    }
}

/// The records after rows are merged in, in order, where `seen` holds the
/// identifiers that the merge has met before them.
pub open spec fn merge_from<K, S>(
    m: Map<K, Sides<S>>,
    seen: Set<K>,
    rows: Seq<(K, S)>,
    zero: S,
    side: Side,
) -> Map<K, Sides<S>>
    decreases rows.len(),
{
    if rows.len() == 0 {
        m
    } else {
        merge_from(
            merge_row(m, seen, rows[0].0, rows[0].1, zero, side),
            seen.insert(rows[0].0),
            rows.drop_first(),
            zero,
            side,
        )
    }
}

/// The records after the rows of one merge are merged in, in order.
pub open spec fn merge_rows<K, S>(m: Map<K, Sides<S>>, rows: Seq<(K, S)>, zero: S, side: Side) -> Map<
    K,
    Sides<S>,
> {
    merge_from(m, Set::empty(), rows, zero, side)
}

/// The identifiers of the rows that repeat an identifier, in the order of
/// the rows, where `seen` holds the identifiers met before them.
pub open spec fn repeats_from<K, S>(seen: Set<K>, rows: Seq<(K, S)>) -> Seq<K>
    decreases rows.len(),
{
    if rows.len() == 0 {
        Seq::empty()
    } else {
        let rest = repeats_from(seen.insert(rows[0].0), rows.drop_first());
        if seen.contains(rows[0].0) {
            seq![rows[0].0] + rest
        } else {
            rest
        }
    }
}

/// The identifiers of the rows of one merge that repeat an identifier of an
/// earlier row, in the order of the rows.
pub open spec fn repeats<K, S>(rows: Seq<(K, S)>) -> Seq<K> {
    repeats_from(Set::empty(), rows)
}

/// Whether some row speaks of an identifier.
pub open spec fn mentions<K, S>(rows: Seq<(K, S)>, k: K) -> bool {
    exists|i: int| 0 <= i < rows.len() && (#[trigger] rows[i]).0 == k
}

/// The identifiers that rows speak of.
pub open spec fn keys_of<K, S>(rows: Seq<(K, S)>) -> Set<K> {
    Set::new(|k: K| mentions(rows, k))
}

/// What rows say of an identifier: the value of the first row for it, and
/// the zero value if there is none.
pub open spec fn first_value<K, S>(rows: Seq<(K, S)>, k: K, zero: S) -> S
    decreases rows.len(),
{
    if rows.len() == 0 {
        zero
    } else if rows[0].0 == k {
        rows[0].1
    } else {
        first_value(rows.drop_first(), k, zero)
    }
}

/// The record of an identifier after rows are merged in: where the rows
/// speak of it and the merge has not met it before, its side holds what
/// the first of them says; else the record is as it was.
pub open spec fn merged_record<K, S>(
    m: Map<K, Sides<S>>,
    seen: Set<K>,
    rows: Seq<(K, S)>,
    k: K,
    zero: S,
    side: Side,
) -> Sides<S> {
    if !seen.contains(k) && mentions(rows, k) {
        record_of(m, k, zero).set(side, first_value(rows, k, zero))
    } else {
        record_of(m, k, zero)
    }
}

/// The records after rows are merged in, each stated by itself.
pub open spec fn merged_map<K, S>(
    m: Map<K, Sides<S>>,
    seen: Set<K>,
    rows: Seq<(K, S)>,
    zero: S,
    side: Side,
) -> Map<K, Sides<S>> {
    Map::new(
        |k: K| m.contains_key(k) || (mentions(rows, k) && !seen.contains(k)),
        |k: K| merged_record(m, seen, rows, k, zero, side),
    )
}

/// A row speaks of an identifier if it is the first row's or a later row
/// speaks of it.
pub proof fn lemma_mentions_first<K, S>(rows: Seq<(K, S)>, k: K)
    requires
        rows.len() > 0,
    ensures
        mentions(rows, k) == (rows[0].0 == k || mentions(rows.drop_first(), k)),
{
    let tail = rows.drop_first();
    if mentions(rows, k) {
        let i = choose|i: int| 0 <= i < rows.len() && (#[trigger] rows[i]).0 == k;
        if i > 0 {
            assert(tail[i - 1].0 == k);
        }
    }
    if mentions(tail, k) {
        let i = choose|i: int| 0 <= i < tail.len() && (#[trigger] tail[i]).0 == k;
        assert(rows[i + 1].0 == k);
    }
    if rows[0].0 == k {
        assert(rows[0].0 == k);
    }
}

/// The identifiers of two runs of rows joined are those of either run.
pub proof fn lemma_keys_joined<K, S>(a: Seq<(K, S)>, b: Seq<(K, S)>)
    ensures
        keys_of(a + b) == keys_of(a).union(keys_of(b)),
{
    assert forall|k: K| mentions(a + b, k) == (mentions(a, k) || mentions(b, k)) by {
        if mentions(a + b, k) {
            let i = choose|i: int| 0 <= i < (a + b).len() && (#[trigger] (a + b)[i]).0 == k;
            if i < a.len() {
                assert(a[i].0 == k);
            } else {
                assert(b[i - a.len()].0 == k);
            }
        }
        if mentions(a, k) {
            let i = choose|i: int| 0 <= i < a.len() && (#[trigger] a[i]).0 == k;
            assert((a + b)[i].0 == k);
        }
        if mentions(b, k) {
            let i = choose|i: int| 0 <= i < b.len() && (#[trigger] b[i]).0 == k;
            assert((a + b)[i + a.len()].0 == k);
        }
    }
    assert(keys_of(a + b) =~= keys_of(a).union(keys_of(b)));
}

/// Merging row by row gives every identifier the record that
/// [`merged_record`] states: of the rows of one identifier the first
/// decides, and rows of different identifiers do not touch each other.
pub proof fn lemma_merge_from<K, S>(
    m: Map<K, Sides<S>>,
    seen: Set<K>,
    rows: Seq<(K, S)>,
    zero: S,
    side: Side,
)
    ensures
        merge_from(m, seen, rows, zero, side) == merged_map(m, seen, rows, zero, side),
    decreases rows.len(),
{
    let result = merge_from(m, seen, rows, zero, side);
    let stated = merged_map(m, seen, rows, zero, side);
    if rows.len() == 0 {
        assert(result =~= stated);
    } else {
        let head = rows[0];
        let tail = rows.drop_first();
        let next = merge_row(m, seen, head.0, head.1, zero, side);
        let met = seen.insert(head.0);
        lemma_merge_from(next, met, tail, zero, side);
        assert forall|k: K| result.contains_key(k) == stated.contains_key(k) by {
            lemma_mentions_first(rows, k);
        }
        assert forall|k: K| result.contains_key(k) implies result[k] == stated[k] by {
            lemma_mentions_first(rows, k);
            assert(result[k] == merged_record(next, met, tail, k, zero, side));
        }
        assert(result =~= stated);
    }
}

/// Merging two runs of rows one after the other is merging the runs joined.
pub proof fn lemma_merge_from_joined<K, S>(
    m: Map<K, Sides<S>>,
    seen: Set<K>,
    a: Seq<(K, S)>,
    b: Seq<(K, S)>,
    zero: S,
    side: Side,
)
    ensures
        merge_from(m, seen, a + b, zero, side) == merge_from(
            merge_from(m, seen, a, zero, side),
            seen.union(keys_of(a)),
            b,
            zero,
            side,
        ),
    decreases a.len(),
{
    if a.len() == 0 {
        assert(a + b =~= b);
        assert(seen.union(keys_of(a)) =~= seen);
    } else {
        assert((a + b)[0] == a[0]);
        assert((a + b).drop_first() =~= a.drop_first() + b);
        lemma_merge_from_joined(
            merge_row(m, seen, a[0].0, a[0].1, zero, side),
            seen.insert(a[0].0),
            a.drop_first(),
            b,
            zero,
            side,
        );
        assert forall|k: K| seen.insert(a[0].0).union(keys_of(a.drop_first())).contains(k)
            == seen.union(keys_of(a)).contains(k) by {
            lemma_mentions_first(a, k);
        }
        assert(seen.insert(a[0].0).union(keys_of(a.drop_first())) =~= seen.union(keys_of(a)));
    }
}

/// The repeats of two runs of rows merged one after the other are the
/// repeats of the runs joined.
pub proof fn lemma_repeats_joined<K, S>(seen: Set<K>, a: Seq<(K, S)>, b: Seq<(K, S)>)
    ensures
        repeats_from(seen, a + b) == repeats_from(seen, a) + repeats_from(
            seen.union(keys_of(a)),
            b,
        ),
    decreases a.len(),
{
    if a.len() == 0 {
        assert(a + b =~= b);
        assert(seen.union(keys_of(a)) =~= seen);
        assert(repeats_from(seen, a) + repeats_from(seen, b) =~= repeats_from(seen, b));
    } else {
        assert((a + b)[0] == a[0]);
        assert((a + b).drop_first() =~= a.drop_first() + b);
        let met = seen.insert(a[0].0);
        lemma_repeats_joined(met, a.drop_first(), b);
        assert forall|k: K| met.union(keys_of(a.drop_first())).contains(k) == seen.union(
            keys_of(a),
        ).contains(k) by {
            lemma_mentions_first(a, k);
        }
        assert(met.union(keys_of(a.drop_first())) =~= seen.union(keys_of(a)));
        let tail = repeats_from(met, a.drop_first());
        let rest = repeats_from(seen.union(keys_of(a)), b);
        assert((seq![a[0].0] + tail) + rest =~= seq![a[0].0] + (tail + rest));
    }
}

/// What one more row adds: it is merged into the records that the rows
/// before it left, and it is a repeat if the merge has met its identifier.
pub proof fn lemma_merge_step<K, S>(
    m: Map<K, Sides<S>>,
    seen: Set<K>,
    rows: Seq<(K, S)>,
    i: int,
    zero: S,
    side: Side,
)
    requires
        0 <= i < rows.len(),
    ensures
        merge_from(m, seen, rows.take(i + 1), zero, side) == merge_row(
            merge_from(m, seen, rows.take(i), zero, side),
            seen.union(keys_of(rows.take(i))),
            rows[i].0,
            rows[i].1,
            zero,
            side,
        ),
        repeats_from(seen, rows.take(i + 1)) == repeats_from(seen, rows.take(i)) + (if seen.union(
            keys_of(rows.take(i)),
        ).contains(rows[i].0) {
            seq![rows[i].0]
        } else {
            Seq::empty()
        }),
        seen.union(keys_of(rows.take(i + 1))) == seen.union(keys_of(rows.take(i))).insert(rows[i].0),
{
    let one = seq![rows[i]];
    let before = merge_from(m, seen, rows.take(i), zero, side);
    let met = seen.union(keys_of(rows.take(i)));
    assert(rows.take(i + 1) =~= rows.take(i) + one);
    lemma_merge_from_joined(m, seen, rows.take(i), one, zero, side);
    lemma_repeats_joined(seen, rows.take(i), one);
    lemma_keys_joined(rows.take(i), one);
    assert(one.drop_first() =~= Seq::<(K, S)>::empty());
    assert(merge_from(before, met, one, zero, side) == merge_row(
        before,
        met,
        rows[i].0,
        rows[i].1,
        zero,
        side,
    )) by {
        reveal_with_fuel(merge_from, 2);
    }
    assert(repeats_from(met, one) =~= (if met.contains(rows[i].0) {
        seq![rows[i].0]
    } else {
        Seq::empty()
    })) by {
        reveal_with_fuel(repeats_from, 2);
    }
    assert forall|k: K| keys_of(one).contains(k) == (k == rows[i].0) by {
        if k == rows[i].0 {
            assert(one[0].0 == k);
        }
    }
    assert(seen.union(keys_of(rows.take(i + 1))) =~= met.insert(rows[i].0));
}

/// The records read in the opposite direction.
pub open spec fn swapped_map<K, S>(m: Map<K, Sides<S>>) -> Map<K, Sides<S>> {
    Map::new(|k: K| m.contains_key(k), |k: K| m[k].swapped())
}

/// Merging rows as one side and reading the records in the opposite
/// direction is merging them as the other side into the records read in
/// the opposite direction.
pub proof fn lemma_merge_rows_swapped<K, S>(
    m: Map<K, Sides<S>>,
    rows: Seq<(K, S)>,
    zero: S,
    side: Side,
)
    ensures
        swapped_map(merge_rows(m, rows, zero, side)) == merge_rows(
            swapped_map(m),
            rows,
            zero,
            side.other(),
        ),
{
    let none = Set::<K>::empty();
    lemma_merge_from(m, none, rows, zero, side);
    lemma_merge_from(swapped_map(m), none, rows, zero, side.other());
    assert(swapped_map(merged_map(m, none, rows, zero, side)) =~= merged_map(
        swapped_map(m),
        none,
        rows,
        zero,
        side.other(),
    ));
}

/// The two sides are merged independently: the first observation and the
/// second can be merged in either order.
pub proof fn lemma_merge_rows_commute<K, S>(
    m: Map<K, Sides<S>>,
    a: Seq<(K, S)>,
    b: Seq<(K, S)>,
    zero: S,
)
    ensures
        merge_rows(merge_rows(m, a, zero, Side::First), b, zero, Side::Second) == merge_rows(
            merge_rows(m, b, zero, Side::Second),
            a,
            zero,
            Side::First,
        ),
{
    let none = Set::<K>::empty();
    let ma = merge_rows(m, a, zero, Side::First);
    let mb = merge_rows(m, b, zero, Side::Second);
    lemma_merge_from(m, none, a, zero, Side::First);
    lemma_merge_from(m, none, b, zero, Side::Second);
    lemma_merge_from(ma, none, b, zero, Side::Second);
    lemma_merge_from(mb, none, a, zero, Side::First);
    let left = merged_map(ma, none, b, zero, Side::Second);
    let right = merged_map(mb, none, a, zero, Side::First);
    assert forall|k: K| left.contains_key(k) == right.contains_key(k) by {
        assert(ma.contains_key(k) == (m.contains_key(k) || mentions(a, k)));
        assert(mb.contains_key(k) == (m.contains_key(k) || mentions(b, k)));
    }
    assert forall|k: K| left.contains_key(k) implies left[k] == right[k] by {
        assert(ma.contains_key(k) == (m.contains_key(k) || mentions(a, k)));
        assert(mb.contains_key(k) == (m.contains_key(k) || mentions(b, k)));
        if ma.contains_key(k) {
            assert(ma[k] == merged_record(m, none, a, k, zero, Side::First));
        }
        if mb.contains_key(k) {
            assert(mb[k] == merged_record(m, none, b, k, zero, Side::Second));
        }
    }
    assert(left =~= right);
}

} // verus!
