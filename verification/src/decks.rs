//! The deck counts of partner pairs, kept in an `IndexMap` keyed by the two
//! partners' names, in the order in which the pairs were first recorded.

use indexmap::IndexMap;
use vstd::prelude::*;

verus! {

/// The insertion-ordered map of the `indexmap` crate.
#[verifier::external_type_specification]
#[verifier::external_body]
#[verifier::reject_recursive_types(K)]
#[verifier::reject_recursive_types(V)]
#[verifier::reject_recursive_types(S)]
pub struct ExIndexMap<K, V, S>(IndexMap<K, V, S>);

/// A recorded pair: the first partner's name, the second partner's name and
/// the number of decks that play them together.
pub type DeckEntry = (Seq<char>, Seq<char>, u64);

/// What a deck map holds: its entries in the map's order.
pub uninterp spec fn deck_entries(m: IndexMap<(String, String), u64>) -> Seq<DeckEntry>;

/// The count that `entries` records for the ordered pair (`a`, `b`): that of
/// the first entry with that key.
pub open spec fn count_of(entries: Seq<DeckEntry>, a: Seq<char>, b: Seq<char>) -> Option<u64>
    decreases entries.len(),
{
    if entries.len() == 0 {
        None
    } else if entries[0].0 == a && entries[0].1 == b {
        Some(entries[0].2)
    } else {
        count_of(entries.drop_first(), a, b)
    }
}

/// The entries after recording `v` for (`a`, `b`): an existing key keeps its
/// place and takes the new count; a new key goes last.
pub open spec fn with_count(entries: Seq<DeckEntry>, a: Seq<char>, b: Seq<char>, v: u64) -> Seq<DeckEntry>
    decreases entries.len(),
{
    if entries.len() == 0 {
        seq![(a, b, v)]
    } else if entries[0].0 == a && entries[0].1 == b {
        entries.update(0, (a, b, v))
    } else {
        seq![entries[0]] + with_count(entries.drop_first(), a, b, v)
    }
}

/// The recorded pairs of a list of entries handed out by a deck map.
pub open spec fn entries_view(v: Seq<(String, String, u64)>) -> Seq<DeckEntry> {
    v.map_values(|e: (String, String, u64)| (e.0@, e.1@, e.2))
}

/// The smallest count in `entries`, or `u64::MAX` when there is none.
pub open spec fn min_count(entries: Seq<DeckEntry>) -> u64
    decreases entries.len(),
{
    if entries.len() == 0 {
        u64::MAX
    } else {
        let rest = min_count(entries.drop_last());
        if entries.last().2 < rest {
            entries.last().2
        } else {
            rest
        }
    }
}

/// The largest count in `entries`, or `0` when there is none.
pub open spec fn max_count(entries: Seq<DeckEntry>) -> u64
    decreases entries.len(),
{
    if entries.len() == 0 {
        0
    } else {
        let rest = max_count(entries.drop_last());
        if entries.last().2 > rest {
            entries.last().2
        } else {
            rest
        }
    }
}

/// The count shown for two partners in either order: that of (`a`, `b`) if
/// recorded, else that of (`b`, `a`), else zero.
pub open spec fn pair_count_of(entries: Seq<DeckEntry>, a: Seq<char>, b: Seq<char>) -> u64 {
    match count_of(entries, a, b) {
        Some(v) => v,
        None => match count_of(entries, b, a) {
            Some(v) => v,
            None => 0,
        },
    }
}

/// Looks up the count of the ordered pair (`a`, `b`) with `IndexMap::get`.
#[verifier::external_body]
fn index_map_get(m: &IndexMap<(String, String), u64>, a: &String, b: &String) -> (res: Option<u64>)
    ensures
        res == count_of(deck_entries(*m), a@, b@),
{
    m.get(&(a.clone(), b.clone())).copied()
}

/// Records a count with `IndexMap::insert`, which replaces the value of an
/// existing key in place, appends a new key last, and returns the value it replaced.
#[verifier::external_body]
fn index_map_insert(m: &mut IndexMap<(String, String), u64>, a: String, b: String, v: u64) -> (res: Option<u64>)
    ensures
        res == count_of(deck_entries(*old(m)), a@, b@),
        deck_entries(*final(m)) == with_count(deck_entries(*old(m)), a@, b@, v),
{
    m.insert((a, b), v)
}

/// Hands out the entries with `IndexMap::iter`, in the map's order, each
/// key's names copied into strings of their own.
#[verifier::external_body]
fn index_map_entries(m: &IndexMap<(String, String), u64>) -> (res: Vec<(String, String, u64)>)
    ensures
        entries_view(res@) == deck_entries(*m),
{
    m.iter().map(|((a, b), v)| (a.clone(), b.clone(), *v)).collect()
}

/// The count recorded for the ordered pair (`a`, `b`), if any.
pub fn deck_count(decks: &IndexMap<(String, String), u64>, a: &String, b: &String) -> (res: Option<u64>)
    ensures
        res == count_of(deck_entries(*decks), a@, b@),
{
    index_map_get(decks, a, b)
}

/// Records `v` as the count of the ordered pair (`a`, `b`) and returns the
/// count it replaced.
pub fn record_deck_count(decks: &mut IndexMap<(String, String), u64>, a: String, b: String, v: u64) -> (res: Option<u64>)
    ensures
        res == count_of(deck_entries(*old(decks)), a@, b@),
        deck_entries(*final(decks)) == with_count(deck_entries(*old(decks)), a@, b@, v),
{
    index_map_insert(decks, a, b, v)
}

/// The recorded pairs, in the map's order.
pub fn deck_list(decks: &IndexMap<(String, String), u64>) -> (res: Vec<(String, String, u64)>)
    ensures
        entries_view(res@) == deck_entries(*decks),
{
    index_map_entries(decks)
}

/// The count of two partners in either order, zero when neither order is recorded.
pub fn pair_count(decks: &IndexMap<(String, String), u64>, a: &String, b: &String) -> (res: u64)
    ensures
        res == pair_count_of(deck_entries(*decks), a@, b@),
{
    match index_map_get(decks, a, b) {
        Some(v) => v,
        None => match index_map_get(decks, b, a) {
            Some(v) => v,
            None => 0,
        },
    }
}

/// The smallest and the largest recorded count; `(u64::MAX, 0)` for an empty map.
pub fn count_bounds(decks: &IndexMap<(String, String), u64>) -> (res: (u64, u64))
    ensures
        res.0 == min_count(deck_entries(*decks)),
        res.1 == max_count(deck_entries(*decks)),
{
    let list = index_map_entries(decks);
    let ghost entries = deck_entries(*decks);
    let mut min: u64 = u64::MAX;
    let mut max: u64 = 0;
    let n = list.len();
    for i in 0..n
        invariant
            n == list@.len(),
            entries == entries_view(list@),
            min == min_count(entries.take(i as int)),
            max == max_count(entries.take(i as int)),
    {
        let v = list[i].2;
        proof {
            assert(entries.take(i + 1).drop_last() =~= entries.take(i as int));
            assert(entries.take(i + 1).last() == entries[i as int]);
        }
        if v < min {
            min = v;
        }
        if v > max {
            max = v;
        }
    }
    proof {
        assert(entries.take(n as int) =~= entries);
    }
    (min, max)
}

/// Recording a count and then looking the pair up gives that count back.
pub proof fn lemma_count_after_record(entries: Seq<DeckEntry>, a: Seq<char>, b: Seq<char>, v: u64)
    ensures
        count_of(with_count(entries, a, b, v), a, b) == Some(v),
    decreases entries.len(),
{
    if entries.len() > 0 && !(entries[0].0 == a && entries[0].1 == b) {
        lemma_count_after_record(entries.drop_first(), a, b, v);
        assert((seq![entries[0]] + with_count(entries.drop_first(), a, b, v)).drop_first()
            =~= with_count(entries.drop_first(), a, b, v));
    }
}

/// Recording a count for one pair leaves the count of every other ordered pair as it was.
pub proof fn lemma_record_keeps_others(
    entries: Seq<DeckEntry>,
    a: Seq<char>,
    b: Seq<char>,
    v: u64,
    c: Seq<char>,
    d: Seq<char>,
)
    requires
        !(c == a && d == b),
    ensures
        count_of(with_count(entries, a, b, v), c, d) == count_of(entries, c, d),
    decreases entries.len(),
{
    if entries.len() == 0 {
        assert(with_count(entries, a, b, v).drop_first() =~= Seq::<DeckEntry>::empty());
        assert(count_of(Seq::<DeckEntry>::empty(), c, d) is None);
    } else if entries[0].0 == a && entries[0].1 == b {
        assert(with_count(entries, a, b, v).drop_first() =~= entries.drop_first());
        assert(with_count(entries, a, b, v)[0] == (a, b, v));
    } else {
        lemma_record_keeps_others(entries.drop_first(), a, b, v, c, d);
        assert((seq![entries[0]] + with_count(entries.drop_first(), a, b, v)).drop_first()
            =~= with_count(entries.drop_first(), a, b, v));
    }
}

/// Recording a count adds an entry exactly when the pair was not recorded before.
pub proof fn lemma_record_length(entries: Seq<DeckEntry>, a: Seq<char>, b: Seq<char>, v: u64)
    ensures
        with_count(entries, a, b, v).len() == entries.len() + (if count_of(entries, a, b) is Some {
            0int
        } else {
            1int
        }),
    decreases entries.len(),
{
    if entries.len() > 0 && !(entries[0].0 == a && entries[0].1 == b) {
        lemma_record_length(entries.drop_first(), a, b, v);
    }
}

/// A count found by a lookup is the count of one of the entries.
pub proof fn lemma_found_count_is_entry(entries: Seq<DeckEntry>, a: Seq<char>, b: Seq<char>)
    ensures
        count_of(entries, a, b) matches Some(v) ==> exists|i: int|
            0 <= i < entries.len() && #[trigger] entries[i] == (a, b, v),
    decreases entries.len(),
{
    if entries.len() > 0 && !(entries[0].0 == a && entries[0].1 == b) {
        lemma_found_count_is_entry(entries.drop_first(), a, b);
        if let Some(v) = count_of(entries, a, b) {
            let i = choose|i: int|
                0 <= i < entries.drop_first().len() && #[trigger] entries.drop_first()[i] == (a, b, v);
            assert(entries[i + 1] == (a, b, v));
        }
    }
}

/// Every recorded count lies between the smallest and the largest count.
pub proof fn lemma_counts_within_bounds(entries: Seq<DeckEntry>, i: int)
    requires
        0 <= i < entries.len(),
    ensures
        min_count(entries) <= entries[i].2 <= max_count(entries),
    decreases entries.len(),
{
    if i < entries.len() - 1 {
        lemma_counts_within_bounds(entries.drop_last(), i);
    }
}

/// The smallest and the largest count of a non-empty map are counts of
/// entries of the map.
pub proof fn lemma_bounds_attained(entries: Seq<DeckEntry>)
    requires
        entries.len() > 0,
    ensures
        exists|i: int| 0 <= i < entries.len() && #[trigger] entries[i].2 == min_count(entries),
        exists|j: int| 0 <= j < entries.len() && #[trigger] entries[j].2 == max_count(entries),
    decreases entries.len(),
{
    let n = entries.len() - 1;
    if entries.len() == 1 {
        assert(entries.drop_last().len() == 0);
        assert(min_count(entries.drop_last()) == u64::MAX);
        assert(max_count(entries.drop_last()) == 0);
        assert(entries.last() == entries[0]);
        assert(entries[0].2 == min_count(entries));
        assert(entries[0].2 == max_count(entries));
    } else {
        lemma_bounds_attained(entries.drop_last());
        let init = entries.drop_last();
        let i = choose|i: int| 0 <= i < init.len() && #[trigger] init[i].2 == min_count(init);
        let j = choose|j: int| 0 <= j < init.len() && #[trigger] init[j].2 == max_count(init);
        assert(entries[i] == init[i]);
        assert(entries[j] == init[j]);
        if entries.last().2 < min_count(init) {
            assert(entries[n].2 == min_count(entries));
        } else {
            assert(entries[i].2 == min_count(entries));
        }
        if entries.last().2 > max_count(init) {
            assert(entries[n].2 == max_count(entries));
        } else {
            assert(entries[j].2 == max_count(entries));
        }
    }
}

/// The count shown for two partners is the count recorded for them in the
/// order asked if there is one, else in the other order, else zero; a
/// recorded count in the order asked wins over the other order.
pub proof fn lemma_pair_count_prefers_asked_order(entries: Seq<DeckEntry>, a: Seq<char>, b: Seq<char>, v: u64)
    ensures
        count_of(entries, a, b) == Some(v) ==> pair_count_of(entries, a, b) == v,
        count_of(entries, a, b) is None && count_of(entries, b, a) == Some(v) ==> pair_count_of(entries, a, b) == v,
        count_of(entries, a, b) is None && count_of(entries, b, a) is None ==> pair_count_of(entries, a, b) == 0,
{
}

/// The count shown for two partners is zero or lies between the smallest
/// and the largest recorded count.
pub proof fn lemma_pair_count_within_bounds(entries: Seq<DeckEntry>, a: Seq<char>, b: Seq<char>)
    ensures
        pair_count_of(entries, a, b) == 0 || min_count(entries) <= pair_count_of(entries, a, b)
            <= max_count(entries),
{
    lemma_found_count_is_entry(entries, a, b);
    lemma_found_count_is_entry(entries, b, a);
    if let Some(v) = count_of(entries, a, b) {
        let i = choose|i: int| 0 <= i < entries.len() && #[trigger] entries[i] == (a, b, v);
        lemma_counts_within_bounds(entries, i);
    } else if let Some(v) = count_of(entries, b, a) {
        let i = choose|i: int| 0 <= i < entries.len() && #[trigger] entries[i] == (b, a, v);
        lemma_counts_within_bounds(entries, i);
    }
}

} // verus!
