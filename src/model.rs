use vstd::prelude::*;
use crate::cursor::{above_start, below_end, range_refused, KeyBound};
use crate::order::{lemma_lex_trans, lemma_lex_trichotomy, lex_le, lex_lt};

verus! {

/// An encoded key with its stored value.
pub type Entry = (Seq<u8>, Seq<u8>);

/// Entries in the store's order: keys never decrease (several values of one key sit
/// side by side in a table with duplicates).
pub open spec fn keys_ordered(t: Seq<Entry>) -> bool {
    forall|i: int, j: int| 0 <= i < j < t.len() ==> lex_le(#[trigger] t[i].0, #[trigger] t[j].0)
}

/// The index that `seek(k)` lands on: the first entry whose key does not sort below `k`.
pub open spec fn seek_index(t: Seq<Entry>, k: Seq<u8>) -> int
    decreases t.len(),
{
    if t.len() == 0 {
        0
    } else if lex_lt(t[0].0, k) {
        1 + seek_index(t.drop_first(), k)
    } else {
        0
    }
}

/// The items of a forward walk whose start sits at index `p`, each step moving one entry on.
pub open spec fn walk_forward(t: Seq<Entry>, p: int) -> Seq<Entry>
    decreases t.len() - p,
{
    if 0 <= p < t.len() {
        seq![t[p]] + walk_forward(t, p + 1)
    } else {
        Seq::empty()
    }
}

/// The items of a backward walk whose start sits at index `p`, each step moving one entry back.
pub open spec fn walk_backward(t: Seq<Entry>, p: int) -> Seq<Entry>
    decreases p + 1,
{
    if 0 <= p < t.len() {
        seq![t[p]] + walk_backward(t, p - 1)
    } else {
        Seq::empty()
    }
}

/// The items of a walk that hands out entries while the end bound admits their key and
/// stops at the first it does not.
pub open spec fn take_below(t: Seq<Entry>, end: KeyBound) -> Seq<Entry>
    decreases t.len(),
{
    if t.len() == 0 {
        Seq::empty()
    } else if below_end(end, t[0].0) {
        seq![t[0]] + take_below(t.drop_first(), end)
    } else {
        Seq::empty()
    }
}

/// The items of a range walk over `t`: from where its start bound places the cursor, cut
/// by its end bound.
pub open spec fn range_walk(t: Seq<Entry>, start: KeyBound, end: KeyBound) -> Seq<Entry> {
    let p = match start {
        KeyBound::Included(k) => seek_index(t, k@),
        _ => 0,
    };
    take_below(t.skip(p), end)
}

/// The entries of `t` whose keys lie within both bounds, in table order.
pub open spec fn in_range(t: Seq<Entry>, start: KeyBound, end: KeyBound) -> Seq<Entry>
    decreases t.len(),
{
    if t.len() == 0 {
        Seq::empty()
    } else {
        (if above_start(start, t[0].0) && below_end(end, t[0].0) {
            seq![t[0]]
        } else {
            Seq::empty()
        }) + in_range(t.drop_first(), start, end)
    }
}

/// The items of a walk over the values of key `k`: from the first value of `k`, while
/// the key stays `k`.
pub open spec fn dup_walk(t: Seq<Entry>, k: Seq<u8>) -> Seq<Entry> {
    take_same_key(t.skip(seek_index(t, k)), k)
}

pub open spec fn take_same_key(t: Seq<Entry>, k: Seq<u8>) -> Seq<Entry>
    decreases t.len(),
{
    if t.len() == 0 {
        Seq::empty()
    } else if t[0].0 == k {
        seq![t[0]] + take_same_key(t.drop_first(), k)
    } else {
        Seq::empty()
    }
}

proof fn lemma_walk_forward(t: Seq<Entry>, p: int)
    requires
        0 <= p <= t.len(),
    ensures
        walk_forward(t, p) == t.subrange(p, t.len() as int),
    decreases t.len() - p,
{
    if p < t.len() {
        lemma_walk_forward(t, p + 1);
        assert(walk_forward(t, p) =~= t.subrange(p, t.len() as int));
    } else {
        assert(walk_forward(t, p) =~= t.subrange(p, t.len() as int));
    }
}

proof fn lemma_walk_backward(t: Seq<Entry>, p: int)
    requires
        -1 <= p < t.len(),
    ensures
        walk_backward(t, p).len() == p + 1,
        forall|i: int| 0 <= i <= p ==> #[trigger] walk_backward(t, p)[i] == t[p - i],
    decreases p + 1,
{
    if p >= 0 {
        lemma_walk_backward(t, p - 1);
        assert forall|i: int| 0 <= i <= p implies #[trigger] walk_backward(t, p)[i] == t[p - i] by {
            if i > 0 {
                assert(walk_backward(t, p)[i] == walk_backward(t, p - 1)[i - 1]);
            }
        }
    }
}

/// Walking a table forward from its first entry hands out the same entries as walking
/// it backward from its last entry, in reverse order.
pub proof fn lemma_forward_backward_symmetry(t: Seq<Entry>)
    ensures
        walk_forward(t, 0) == walk_backward(t, t.len() - 1).reverse(),
{
    lemma_walk_forward(t, 0);
    lemma_walk_backward(t, t.len() - 1);
    let b = walk_backward(t, t.len() - 1);
    assert(t.subrange(0, t.len() as int) =~= t);
    if t.len() > 0 {
        assert(b.reverse() =~= t);
    } else {
        assert(b.reverse() =~= t);
    }
}

/// Once the end bound refuses a key, it refuses every key that does not sort below it.
proof fn lemma_below_end_closed(end: KeyBound, k1: Seq<u8>, k2: Seq<u8>)
    requires
        lex_le(k1, k2),
        !below_end(end, k1),
    ensures
        !below_end(end, k2),
{
    match end {
        KeyBound::Included(e) => {
            lemma_lex_trichotomy(k1, e@);
            lemma_lex_trichotomy(k2, e@);
            if lex_lt(k1, k2) && lex_lt(k2, e@) {
                lemma_lex_trans(k1, k2, e@);
            }
            if lex_lt(k1, k2) && k2 == e@ {
            }
        },
        KeyBound::Excluded(e) => {
            lemma_lex_trichotomy(k1, e@);
            lemma_lex_trichotomy(k2, e@);
            if lex_lt(k1, k2) && lex_lt(k2, e@) {
                lemma_lex_trans(k1, k2, e@);
            }
        },
        KeyBound::Unbounded => {},
    }
}

proof fn lemma_ordered_tail(t: Seq<Entry>)
    requires
        keys_ordered(t),
        t.len() > 0,
    ensures
        keys_ordered(t.drop_first()),
{
    let r = t.drop_first();
    assert forall|i: int, j: int| 0 <= i < j < r.len() implies lex_le(
        #[trigger] r[i].0,
        #[trigger] r[j].0,
    ) by {
        assert(r[i] == t[i + 1] && r[j] == t[j + 1]);
    }
}

/// Past a key the end bound refuses, nothing is in range.
proof fn lemma_in_range_none_past_end(t: Seq<Entry>, start: KeyBound, end: KeyBound)
    requires
        keys_ordered(t),
        t.len() > 0,
        !below_end(end, t[0].0),
    ensures
        in_range(t, start, end) == Seq::<Entry>::empty(),
    decreases t.len(),
{
    let r = t.drop_first();
    if r.len() > 0 {
        lemma_ordered_tail(t);
        assert(lex_le(t[0].0, t[1].0));
        lemma_below_end_closed(end, t[0].0, r[0].0);
        lemma_in_range_none_past_end(r, start, end);
    } else {
        assert(in_range(r, start, end) == Seq::<Entry>::empty());
    }
    assert(!(above_start(start, t[0].0) && below_end(end, t[0].0)));
    assert(in_range(t, start, end) == Seq::<Entry>::empty() + in_range(r, start, end));
    assert(in_range(t, start, end) =~= Seq::<Entry>::empty());
}

/// Where every key satisfies the start bound, cutting at the end bound keeps exactly the
/// entries in range.
proof fn lemma_take_below_in_range(t: Seq<Entry>, start: KeyBound, end: KeyBound)
    requires
        keys_ordered(t),
        forall|i: int| 0 <= i < t.len() ==> above_start(start, #[trigger] t[i].0),
    ensures
        take_below(t, end) == in_range(t, start, end),
    decreases t.len(),
{
    if t.len() > 0 {
        let r = t.drop_first();
        if below_end(end, t[0].0) {
            lemma_ordered_tail(t);
            assert forall|i: int| 0 <= i < r.len() implies above_start(start, #[trigger] r[i].0) by {
                assert(r[i] == t[i + 1]);
            }
            lemma_take_below_in_range(r, start, end);
            assert(above_start(start, t[0].0));
        } else {
            lemma_in_range_none_past_end(t, start, end);
        }
    }
}

proof fn lemma_ordered_skip(t: Seq<Entry>, p: int)
    requires
        keys_ordered(t),
        0 <= p <= t.len(),
    ensures
        keys_ordered(t.skip(p)),
{
    let r = t.skip(p);
    assert forall|i: int, j: int| 0 <= i < j < r.len() implies lex_le(
        #[trigger] r[i].0,
        #[trigger] r[j].0,
    ) by {
        assert(r[i] == t[i + p] && r[j] == t[j + p]);
    }
}

proof fn lemma_lex_le_trans(a: Seq<u8>, b: Seq<u8>, c: Seq<u8>)
    requires
        lex_le(a, b),
        lex_le(b, c),
    ensures
        lex_le(a, c),
{
    if lex_lt(a, b) && lex_lt(b, c) {
        lemma_lex_trans(a, b, c);
    }
}

/// Entries before the seek index of an included start key are out of range; those from
/// it on all satisfy the start bound.
proof fn lemma_seek_skips(t: Seq<Entry>, start: KeyBound, end: KeyBound)
    requires
        keys_ordered(t),
        start is Included,
    ensures
        0 <= seek_index(t, start->Included_0@) <= t.len(),
        in_range(t, start, end) == in_range(t.skip(seek_index(t, start->Included_0@)), start, end),
        forall|i: int|
            seek_index(t, start->Included_0@) <= i < t.len() ==> above_start(
                start,
                #[trigger] t[i].0,
            ),
    decreases t.len(),
{
    let s = start->Included_0@;
    if t.len() == 0 {
        assert(t.skip(0) =~= t);
    } else if lex_lt(t[0].0, s) {
        let r = t.drop_first();
        lemma_ordered_tail(t);
        lemma_seek_skips(r, start, end);
        let q = seek_index(r, s);
        assert(t.skip(1 + q) =~= r.skip(q));
        lemma_lex_trichotomy(t[0].0, s);
        assert(!above_start(start, t[0].0));
        assert(in_range(t, start, end) =~= in_range(r, start, end));
        assert forall|i: int| 1 + q <= i < t.len() implies above_start(start, #[trigger] t[i].0) by {
            assert(t[i] == r[i - 1]);
        }
    } else {
        assert(t.skip(0) =~= t);
        lemma_lex_trichotomy(t[0].0, s);
        assert forall|i: int| 0 <= i < t.len() implies above_start(start, #[trigger] t[i].0) by {
            if i > 0 {
                assert(lex_le(t[0].0, t[i].0));
                lemma_lex_le_trans(s, t[0].0, t[i].0);
            }
        }
    }
}

/// A range walk over a table in store order hands out exactly the entries whose keys lie
/// within its bounds, in table order: none is skipped before the end bound cuts it off,
/// and none past that bound appears.
pub proof fn lemma_range_walk_exact(t: Seq<Entry>, start: KeyBound, end: KeyBound)
    requires
        keys_ordered(t),
        !range_refused(start, end),
    ensures
        range_walk(t, start, end) == in_range(t, start, end),
{
    match start {
        KeyBound::Included(k) => {
            lemma_seek_skips(t, start, end);
            let p = seek_index(t, k@);
            lemma_ordered_skip(t, p);
            assert forall|i: int| 0 <= i < t.skip(p).len() implies above_start(
                start,
                #[trigger] t.skip(p)[i].0,
            ) by {
                assert(t.skip(p)[i] == t[i + p]);
            }
            lemma_take_below_in_range(t.skip(p), start, end);
        },
        _ => {
            assert(t.skip(0) =~= t);
            lemma_take_below_in_range(t, start, end);
        },
    }
}

proof fn lemma_same_key_is_below(t: Seq<Entry>, key: Vec<u8>)
    requires
        forall|i: int| 0 <= i < t.len() ==> lex_le(key@, #[trigger] t[i].0),
    ensures
        take_same_key(t, key@) == take_below(t, KeyBound::Included(key)),
    decreases t.len(),
{
    if t.len() > 0 {
        let r = t.drop_first();
        assert(lex_le(key@, t[0].0));
        lemma_lex_trichotomy(key@, t[0].0);
        assert forall|i: int| 0 <= i < r.len() implies lex_le(key@, #[trigger] r[i].0) by {
            assert(r[i] == t[i + 1]);
        }
        lemma_same_key_is_below(r, key);
    }
}

/// A walk over the values of `key`, in a table in store order, hands out exactly the
/// entries whose key is `key` (the entries within the bounds `key..=key`), and stops
/// before any entry of another key.
pub proof fn lemma_dup_walk_exact(t: Seq<Entry>, key: Vec<u8>)
    requires
        keys_ordered(t),
    ensures
        dup_walk(t, key@) == in_range(t, KeyBound::Included(key), KeyBound::Included(key)),
        forall|i: int| 0 <= i < dup_walk(t, key@).len() ==> #[trigger] dup_walk(t, key@)[i].0 == key@,
{
    let b = KeyBound::Included(key);
    lemma_lex_trichotomy(key@, key@);
    assert(!range_refused(b, b));
    lemma_seek_skips(t, b, b);
    let p = seek_index(t, key@);
    let s = t.skip(p);
    assert forall|i: int| 0 <= i < s.len() implies lex_le(key@, #[trigger] s[i].0) by {
        assert(s[i] == t[i + p]);
    }
    lemma_same_key_is_below(s, key);
    lemma_range_walk_exact(t, b, b);
    lemma_take_same_key_keys(s, key@);
}

proof fn lemma_take_same_key_keys(t: Seq<Entry>, k: Seq<u8>)
    ensures
        forall|i: int| 0 <= i < take_same_key(t, k).len() ==> #[trigger] take_same_key(t, k)[i].0 == k,
    decreases t.len(),
{
    if t.len() > 0 && t[0].0 == k {
        lemma_take_same_key_keys(t.drop_first(), k);
        let w = take_same_key(t, k);
        assert forall|i: int| 0 <= i < w.len() implies #[trigger] w[i].0 == k by {
            if i > 0 {
                assert(w[i] == take_same_key(t.drop_first(), k)[i - 1]);
            }
        }
    }
}

} // verus!
