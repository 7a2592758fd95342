//! The order in which a diagram lists partners: by the number of decks that
//! play them, most first.

use crate::decks::{deck_entries, deck_list, entries_view, DeckEntry};
use indexmap::IndexMap;
use vstd::prelude::*;

verus! {

/// Which side of a recorded pair counts toward a partner's total.
#[derive(Clone, Copy, Debug, PartialEq, Eq, Structural)]
pub enum Counting {
    /// Only the first partner of each pair.
    X,
    /// Only the second partner of each pair.
    Y,
    /// Both partners of each pair.
    Both,
}

/// Whether the first partner of a pair counts.
pub open spec fn counts_first(counting: Counting) -> bool {
    !(counting is Y)
}

/// Whether the second partner of a pair counts.
pub open spec fn counts_second(counting: Counting) -> bool {
    !(counting is X)
}

/// The names of a list of strings.
pub open spec fn names_view(v: Seq<String>) -> Seq<Seq<char>> {
    v.map_values(|s: String| s@)
}

/// The position that a name stands for: the last partner of that name.
pub open spec fn name_index(names: Seq<Seq<char>>, n: Seq<char>) -> Option<int>
    decreases names.len(),
{
    if names.len() == 0 {
        None
    } else if names.last() == n {
        Some(names.len() - 1)
    } else {
        name_index(names.drop_last(), n)
    }
}

/// What one recorded pair adds to the total of the partner at position `i`.
pub open spec fn entry_share(names: Seq<Seq<char>>, e: DeckEntry, counting: Counting, i: int) -> int {
    (if counts_first(counting) && name_index(names, e.0) == Some(i) {
        e.2 as int
    } else {
        0int
    }) + (if counts_second(counting) && name_index(names, e.1) == Some(i) {
        e.2 as int
    } else {
        0int
    })
}

/// The number of decks that the counted sides of `entries` give the partner at position `i`.
pub open spec fn partner_total(names: Seq<Seq<char>>, entries: Seq<DeckEntry>, counting: Counting, i: int) -> int
    decreases entries.len(),
{
    if entries.len() == 0 {
        0
    } else {
        partner_total(names, entries.drop_last(), counting, i) + entry_share(
            names,
            entries.last(),
            counting,
            i,
        )
    }
}

/// Every counted name of every pair names a partner.
pub open spec fn names_known(names: Seq<Seq<char>>, entries: Seq<DeckEntry>, counting: Counting) -> bool {
    forall|k: int|
        0 <= k < entries.len() ==> (counts_first(counting) ==> name_index(names, #[trigger] entries[k].0) is Some)
            && (counts_second(counting) ==> name_index(names, entries[k].1) is Some)
}

/// Every partner's total fits in a `u64`.
pub open spec fn totals_fit(names: Seq<Seq<char>>, entries: Seq<DeckEntry>, counting: Counting) -> bool {
    forall|i: int| 0 <= i < names.len() ==> #[trigger] partner_total(names, entries, counting, i) <= u64::MAX
}

/// The totals of all partners, by position.
pub open spec fn all_totals(names: Seq<Seq<char>>, entries: Seq<DeckEntry>, counting: Counting) -> Seq<int> {
    Seq::new(names.len(), |i: int| partner_total(names, entries, counting, i))
}

/// Partner `a` is listed before partner `b`: it has more decks, or as many
/// and a later position.
pub open spec fn ranks_before(totals: Seq<int>, a: int, b: int) -> bool {
    totals[a] > totals[b] || (totals[a] == totals[b] && a > b)
}

/// `order` lists every position of `totals` once, each before those that it ranks before.
pub open spec fn is_ranking(order: Seq<usize>, totals: Seq<int>) -> bool {
    &&& order.len() == totals.len()
    &&& forall|k: int| 0 <= k < order.len() ==> #[trigger] order[k] < totals.len()
    &&& forall|p: int, q: int|
        0 <= p < q < order.len() ==> ranks_before(totals, #[trigger] order[p] as int, #[trigger] order[q] as int)
    &&& forall|i: int| 0 <= i < totals.len() ==> #[trigger] lists(order, i)
}

/// Position `i` occurs in `order`.
pub open spec fn lists(order: Seq<usize>, i: int) -> bool {
    exists|k: int| 0 <= k < order.len() && order[k] == i
}

/// The position of the last partner named `n`: a later partner of the same
/// name stands for the name.
pub fn find_name(names: &Vec<String>, n: &String) -> (res: Option<usize>)
    ensures
        match name_index(names_view(names@), n@) {
            Some(i) => res == Some(i as usize),
            None => res is None,
        },
{
    let ghost nv = names_view(names@);
    let mut res: Option<usize> = None;
    let len = names.len();
    for i in 0..len
        invariant
            len == names@.len(),
            nv == names_view(names@),
            match name_index(nv.take(i as int), n@) {
                Some(j) => res == Some(j as usize),
                None => res is None,
            },
    {
        proof {
            assert(nv.take(i + 1).drop_last() =~= nv.take(i as int));
            assert(nv.take(i + 1).last() == names@[i as int]@);
        }
        if names[i] == *n {
            res = Some(i);
        }
    }
    proof {
        assert(nv.take(len as int) =~= nv);
    }
    res
}

/// A position found for a name is that of a partner of that name.
pub proof fn lemma_name_index_found(names: Seq<Seq<char>>, n: Seq<char>)
    ensures
        name_index(names, n) matches Some(i) ==> 0 <= i < names.len() && names[i] == n,
    decreases names.len(),
{
    if names.len() > 0 && names.last() != n {
        lemma_name_index_found(names.drop_last(), n);
    }
}

/// A prefix of the pairs gives each partner no more than all of them do.
pub proof fn lemma_total_prefix_monotone(
    names: Seq<Seq<char>>,
    entries: Seq<DeckEntry>,
    counting: Counting,
    i: int,
    k: int,
)
    requires
        0 <= k <= entries.len(),
    ensures
        partner_total(names, entries.take(k), counting, i) <= partner_total(names, entries, counting, i),
    decreases entries.len(),
{
    if k < entries.len() {
        lemma_total_prefix_monotone(names, entries.drop_last(), counting, i, k);
        assert(entries.drop_last().take(k) =~= entries.take(k));
    } else {
        assert(entries.take(k) =~= entries);
    }
}

/// Adds `v` to the total at `at`, refusing a sum that does not fit.
fn add_to_total(totals: &mut Vec<u64>, at: usize, v: u64) -> (ok: bool)
    requires
        at < old(totals)@.len(),
    ensures
        final(totals)@.len() == old(totals)@.len(),
        ok == (old(totals)@[at as int] + v <= u64::MAX),
        ok ==> final(totals)@ == old(totals)@.update(at as int, (old(totals)@[at as int] + v) as u64),
{
    let cur = totals[at];
    match cur.checked_add(v) {
        Some(s) => {
            totals.set(at, s);
            true
        },
        None => false,
    }
}

/// The total number of decks of each partner, counting the sides of each
/// pair that `counting` names; `None` when a counted name is no partner's or
/// a total does not fit in a `u64`.
pub fn partner_totals(names: &Vec<String>, entries: &Vec<(String, String, u64)>, counting: Counting) -> (res: Option<Vec<u64>>)
    ensures
        res is Some <==> names_known(names_view(names@), entries_view(entries@), counting) && totals_fit(
            names_view(names@),
            entries_view(entries@),
            counting,
        ),
        res matches Some(t) ==> t@.len() == names@.len() && forall|i: int|
            0 <= i < t@.len() ==> #[trigger] t@[i] == partner_total(
                names_view(names@),
                entries_view(entries@),
                counting,
                i,
            ),
{
    let ghost nv = names_view(names@);
    let ghost ev = entries_view(entries@);
    let n = names.len();
    let mut totals: Vec<u64> = Vec::new();
    for i in 0..n
        invariant
            totals@.len() == i,
            forall|j: int| 0 <= j < i ==> #[trigger] totals@[j] == 0,
    {
        totals.push(0);
    }
    let m = entries.len();
    for k in 0..m
        invariant
            n == names@.len(),
            m == entries@.len(),
            nv == names_view(names@),
            ev == entries_view(entries@),
            totals@.len() == n,
            forall|i: int|
                0 <= i < n ==> #[trigger] totals@[i] == partner_total(nv, ev.take(k as int), counting, i),
            names_known(nv, ev.take(k as int), counting),
    {
        let ghost before = totals@;
        proof {
            assert(ev.take(k + 1).drop_last() =~= ev.take(k as int));
            assert(ev.take(k + 1).last() == ev[k as int]);
        }
        let v = entries[k].2;
        proof {
            assert(ev[k as int] == (entries@[k as int].0@, entries@[k as int].1@, v));
            lemma_name_index_found(nv, ev[k as int].0);
            lemma_name_index_found(nv, ev[k as int].1);
        }
        if counting != Counting::Y {
            match find_name(names, &entries[k].0) {
                None => {
                    return None;
                },
                Some(ix) => {
                    if !add_to_total(&mut totals, ix, v) {
                        proof {
                            lemma_total_prefix_monotone(nv, ev, counting, ix as int, k + 1);
                        }
                        return None;
                    }
                },
            }
        }
        let ghost middle = totals@;
        if counting != Counting::X {
            match find_name(names, &entries[k].1) {
                None => {
                    return None;
                },
                Some(iy) => {
                    if !add_to_total(&mut totals, iy, v) {
                        proof {
                            lemma_total_prefix_monotone(nv, ev, counting, iy as int, k + 1);
                        }
                        return None;
                    }
                },
            }
        }
        proof {
            assert forall|i: int| 0 <= i < n implies #[trigger] totals@[i] == partner_total(
                nv,
                ev.take(k + 1),
                counting,
                i,
            ) by {
                assert(before[i] == partner_total(nv, ev.take(k as int), counting, i));
            }
            assert forall|j: int| 0 <= j < k + 1 implies (counts_first(counting) ==> name_index(
                nv,
                #[trigger] ev.take(k + 1)[j].0,
            ) is Some) && (counts_second(counting) ==> name_index(nv, ev.take(k + 1)[j].1) is Some) by {
                if j < k {
                    assert(ev.take(k + 1)[j] == ev.take(k as int)[j]);
                }
            }
        }
    }
    proof {
        assert(ev.take(m as int) =~= ev);
        assert forall|i: int| 0 <= i < nv.len() implies #[trigger] partner_total(nv, ev, counting, i)
            <= u64::MAX by {
            assert(totals@[i] == partner_total(nv, ev, counting, i));
        }
    }
    Some(totals)
}

/// The totals of a list of counts, as integers.
pub open spec fn totals_view(t: Seq<u64>) -> Seq<int> {
    t.map_values(|x: u64| x as int)
}

/// The positions `0..totals.len()`, most decks first, ties broken by the
/// later position first.
pub fn sort_by_totals(totals: &Vec<u64>) -> (order: Vec<usize>)
    ensures
        is_ranking(order@, totals_view(totals@)),
{
    let ghost tv = totals_view(totals@);
    let n = totals.len();
    let mut order: Vec<usize> = Vec::new();
    for i in 0..n
        invariant
            n == totals@.len(),
            tv == totals_view(totals@),
            order@.len() == i,
            forall|k: int| 0 <= k < order@.len() ==> #[trigger] order@[k] < i,
            forall|p: int, q: int|
                0 <= p < q < order@.len() ==> ranks_before(tv, #[trigger] order@[p] as int, #[trigger] order@[q] as int),
            forall|j: int| 0 <= j < i ==> #[trigger] lists(order@, j),
    {
        let ti = totals[i];
        let len = order.len();
        let mut pos: usize = 0;
        while pos < len && totals[order[pos]] > ti
            invariant
                n == totals@.len(),
                tv == totals_view(totals@),
                len == order@.len(),
                i < n,
                ti == totals@[i as int],
                pos <= len,
                forall|k: int| 0 <= k < order@.len() ==> #[trigger] order@[k] < i,
                forall|k: int| 0 <= k < pos ==> tv[#[trigger] order@[k] as int] > tv[i as int],
            decreases len - pos,
        {
            pos = pos + 1;
        }
        let ghost old_order = order@;
        proof {
            assert forall|k: int| pos <= k < len implies tv[#[trigger] old_order[k] as int] <= tv[i as int] by {
                if k > pos {
                    assert(ranks_before(tv, old_order[pos as int] as int, old_order[k] as int));
                }
            }
        }
        order.insert(pos, i);
        proof {
            let new_order = order@;
            assert(new_order == old_order.insert(pos as int, i));
            assert forall|k: int| 0 <= k < new_order.len() implies #[trigger] new_order[k] < i + 1 by {
                if k > pos {
                    assert(new_order[k] == old_order[k - 1]);
                }
            }
            assert forall|p: int, q: int| 0 <= p < q < new_order.len() implies ranks_before(
                tv,
                #[trigger] new_order[p] as int,
                #[trigger] new_order[q] as int,
            ) by {
                if q < pos {
                    assert(ranks_before(tv, old_order[p] as int, old_order[q] as int));
                } else if q == pos {
                    assert(tv[old_order[p] as int] > tv[i as int]);
                } else if p < pos {
                    assert(new_order[q] == old_order[q - 1]);
                    assert(ranks_before(tv, old_order[p] as int, old_order[q - 1] as int));
                } else if p == pos {
                    assert(new_order[q] == old_order[q - 1]);
                    assert(tv[old_order[q - 1] as int] <= tv[i as int]);
                    assert(old_order[q - 1] < i);
                } else {
                    assert(new_order[p] == old_order[p - 1]);
                    assert(new_order[q] == old_order[q - 1]);
                    assert(ranks_before(tv, old_order[p - 1] as int, old_order[q - 1] as int));
                }
            }
            assert forall|j: int| 0 <= j < i + 1 implies #[trigger] lists(new_order, j) by {
                if j == i {
                    assert(new_order[pos as int] == i);
                } else {
                    assert(lists(old_order, j));
                    let k = choose|k: int| 0 <= k < old_order.len() && old_order[k] == j;
                    if k < pos {
                        assert(new_order[k] == j);
                    } else {
                        assert(new_order[k + 1] == j);
                    }
                }
            }
        }
    }
    order
}

/// Whether a diagram's order is defined: every counted name of every pair
/// is a partner's, and every partner's total fits in a `u64`.
pub fn order_defined(names: &Vec<String>, decks: &IndexMap<(String, String), u64>, counting: Counting) -> (res: bool)
    ensures
        res == (names_known(names_view(names@), deck_entries(*decks), counting) && totals_fit(
            names_view(names@),
            deck_entries(*decks),
            counting,
        )),
{
    let list = deck_list(decks);
    partner_totals(names, &list, counting).is_some()
}

/// The order of a diagram's partners: every position once, most decks first,
/// ties broken by the later position first. Every counted name must be a
/// partner's, and every total must fit in a `u64`.
pub fn get_order(names: &Vec<String>, decks: &IndexMap<(String, String), u64>, counting: Counting) -> (order: Vec<usize>)
    requires
        names_known(names_view(names@), deck_entries(*decks), counting),
        totals_fit(names_view(names@), deck_entries(*decks), counting),
    ensures
        is_ranking(order@, all_totals(names_view(names@), deck_entries(*decks), counting)),
{
    let list = deck_list(decks);
    match partner_totals(names, &list, counting) {
        None => {
            proof {
                assert(false);
            }
            Vec::new()
        },
        Some(totals) => {
            let order = sort_by_totals(&totals);
            proof {
                assert(totals_view(totals@) =~= all_totals(names_view(names@), deck_entries(*decks), counting));
            }
            order
        },
    }
}

/// The order of a diagram's partners where it is defined; nothing where a
/// counted name is no partner's or a total does not fit in a `u64`.
pub fn try_get_order(names: &Vec<String>, decks: &IndexMap<(String, String), u64>, counting: Counting) -> (res: Option<Vec<usize>>)
    ensures
        res is Some <==> names_known(names_view(names@), deck_entries(*decks), counting) && totals_fit(
            names_view(names@),
            deck_entries(*decks),
            counting,
        ),
        res matches Some(order) ==> is_ranking(
            order@,
            all_totals(names_view(names@), deck_entries(*decks), counting),
        ),
{
    if order_defined(names, decks, counting) {
        Some(get_order(names, decks, counting))
    } else {
        None
    }
}

/// Counting both partners of each pair gives each partner the sum of what
/// counting the first partners and counting the second partners give it.
pub proof fn lemma_both_is_sum(names: Seq<Seq<char>>, entries: Seq<DeckEntry>, i: int)
    ensures
        partner_total(names, entries, Counting::Both, i) == partner_total(names, entries, Counting::X, i)
            + partner_total(names, entries, Counting::Y, i),
    decreases entries.len(),
{
    if entries.len() > 0 {
        lemma_both_is_sum(names, entries.drop_last(), i);
    }
}

/// No partner's total is negative, and a partner's total under one side's
/// counting never exceeds its total counting both sides.
pub proof fn lemma_side_within_both(names: Seq<Seq<char>>, entries: Seq<DeckEntry>, i: int)
    ensures
        0 <= partner_total(names, entries, Counting::X, i) <= partner_total(names, entries, Counting::Both, i),
        0 <= partner_total(names, entries, Counting::Y, i) <= partner_total(names, entries, Counting::Both, i),
    decreases entries.len(),
{
    lemma_both_is_sum(names, entries, i);
    if entries.len() > 0 {
        lemma_side_within_both(names, entries.drop_last(), i);
    }
}

/// Two rankings of the same totals are the same order.
pub proof fn lemma_ranking_unique(a: Seq<usize>, b: Seq<usize>, totals: Seq<int>)
    requires
        is_ranking(a, totals),
        is_ranking(b, totals),
    ensures
        a == b,
{
    assert forall|k: int| 0 <= k < a.len() implies a[k] == b[k] by {
        lemma_ranking_prefix_agrees(a, b, totals, k);
    }
    assert(a =~= b);
}

/// Two rankings of the same totals agree up to and including position `k`.
proof fn lemma_ranking_prefix_agrees(a: Seq<usize>, b: Seq<usize>, totals: Seq<int>, k: int)
    requires
        is_ranking(a, totals),
        is_ranking(b, totals),
        0 <= k < a.len(),
    ensures
        forall|j: int| 0 <= j <= k ==> #[trigger] a[j] == b[j],
    decreases k,
{
    if k > 0 {
        lemma_ranking_prefix_agrees(a, b, totals, k - 1);
    }
    let x = a[k];
    let y = b[k];
    if x != y {
        assert(lists(b, x as int));
        let m = choose|m: int| 0 <= m < b.len() && b[m] == x;
        assert(lists(a, y as int));
        let m2 = choose|m: int| 0 <= m < a.len() && a[m] == y;
        if m < k {
            assert(a[m] == b[m]);
            assert(ranks_before(totals, a[m] as int, a[k] as int));
        }
        if m2 < k {
            assert(a[m2] == b[m2]);
            assert(ranks_before(totals, b[m2] as int, b[k] as int));
        }
        assert(m > k && m2 > k);
        assert(ranks_before(totals, b[k] as int, b[m] as int));
        assert(ranks_before(totals, a[k] as int, a[m2] as int));
    }
}

} // verus!
