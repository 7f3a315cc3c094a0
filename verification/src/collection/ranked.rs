//! Stable sorting by an integer rank.

use vstd::prelude::*;
use crate::collection::item::{Episode, EpisodeView, Season, SeasonView};
use crate::text::views;

verus! {

/// `t` with `x` put in front of the first item whose rank is not below the
/// rank of `x`, or at the end where there is no such item.
pub open spec fn place<V>(t: Seq<V>, x: V, rank: spec_fn(V) -> int) -> Seq<V>
    decreases t.len(),
{
    if t.len() == 0 || rank(x) <= rank(t[0]) {
        seq![x] + t
    } else {
        seq![t[0]] + place(t.drop_first(), x, rank)
    }
}

/// The items of `s` in ascending order of rank; items of equal rank keep the
/// order that they have in `s`.
pub open spec fn sorted_by<V>(s: Seq<V>, rank: spec_fn(V) -> int) -> Seq<V>
    decreases s.len(),
{
    if s.len() == 0 {
        s
    } else {
        place(sorted_by(s.drop_first(), rank), s[0], rank)
    }
}

/// Whether the ranks of `s` never fall from one item to the next.
pub open spec fn is_ascending<V>(s: Seq<V>, rank: spec_fn(V) -> int) -> bool {
    forall|i: int, j: int| 0 <= i < j < s.len() ==> rank(#[trigger] s[i]) <= rank(#[trigger] s[j])
}

/// Where `place` puts an item: at the index before which all ranks are
/// lower, and at which the rank is not.
pub proof fn lemma_place_at<V>(t: Seq<V>, x: V, rank: spec_fn(V) -> int, j: int)
    requires
        0 <= j <= t.len(),
        forall|i: int| 0 <= i < j ==> rank(#[trigger] t[i]) < rank(x),
        j < t.len() ==> rank(x) <= rank(t[j]),
    ensures
        place(t, x, rank) == t.insert(j, x),
    decreases t.len(),
{
    if t.len() == 0 || rank(x) <= rank(t[0]) {
        if j > 0 {
            assert(rank(t[0]) < rank(x));
        }
        assert(seq![x] + t =~= t.insert(0, x));
    } else {
        assert(j > 0);
        let rest = t.drop_first();
        assert forall|i: int| 0 <= i < j - 1 implies rank(#[trigger] rest[i]) < rank(x) by {
            assert(rest[i] == t[i + 1]);
        }
        lemma_place_at(rest, x, rank, j - 1);
        assert(seq![t[0]] + rest.insert(j - 1, x) =~= t.insert(j, x));
    }
}

/// Placing an item into an ascending sequence keeps it ascending and adds
/// that item and nothing else.
pub proof fn lemma_place<V>(t: Seq<V>, x: V, rank: spec_fn(V) -> int)
    requires
        is_ascending(t, rank),
    ensures
        is_ascending(place(t, x, rank), rank),
        place(t, x, rank).to_multiset() == t.to_multiset().insert(x),
        place(t, x, rank).len() == t.len() + 1,
    decreases t.len(),
{
    broadcast use vstd::seq_lib::group_to_multiset_ensures;

    if t.len() == 0 || rank(x) <= rank(t[0]) {
        let r = seq![x] + t;
        assert(r =~= t.insert(0, x));
        vstd::seq_lib::to_multiset_insert(t, 0, x);
        assert forall|i: int, j: int| 0 <= i < j < r.len() implies rank(#[trigger] r[i]) <= rank(
            #[trigger] r[j],
        ) by {
            if i == 0 {
                assert(r[j] == t[j - 1]);
                if j - 1 > 0 {
                    assert(rank(t[0]) <= rank(t[j - 1]));
                }
            } else {
                assert(r[i] == t[i - 1] && r[j] == t[j - 1]);
            }
        }
    } else {
        let rest = t.drop_first();
        assert forall|i: int, j: int| 0 <= i < j < rest.len() implies rank(#[trigger] rest[i])
            <= rank(#[trigger] rest[j]) by {
            assert(rest[i] == t[i + 1] && rest[j] == t[j + 1]);
        }
        lemma_place(rest, x, rank);
        let p = place(rest, x, rank);
        let r = seq![t[0]] + p;
        assert(r =~= p.insert(0, t[0]));
        vstd::seq_lib::to_multiset_insert(p, 0, t[0]);
        assert(t =~= rest.insert(0, t[0]));
        vstd::seq_lib::to_multiset_insert(rest, 0, t[0]);
        assert(r.to_multiset() =~= t.to_multiset().insert(x));
        assert forall|i: int, j: int| 0 <= i < j < r.len() implies rank(#[trigger] r[i]) <= rank(
            #[trigger] r[j],
        ) by {
            if i == 0 {
                assert(r[j] == p[j - 1]);
                assert(p.to_multiset().count(p[j - 1]) > 0);
                if p[j - 1] == x {
                } else {
                    assert(rest.to_multiset().count(p[j - 1]) > 0);
                    assert(rest.contains(p[j - 1]));
                    let k = choose|k: int| 0 <= k < rest.len() && rest[k] == p[j - 1];
                    assert(rest[k] == t[k + 1]);
                    assert(rank(t[0]) <= rank(t[k + 1]));
                }
            } else {
                assert(r[i] == p[i - 1] && r[j] == p[j - 1]);
            }
        }
    }
}

/// Sorting gives an ascending sequence of the same items, each as often as
/// before.
pub proof fn lemma_sorted_by<V>(s: Seq<V>, rank: spec_fn(V) -> int)
    ensures
        is_ascending(sorted_by(s, rank), rank),
        sorted_by(s, rank).to_multiset() == s.to_multiset(),
        sorted_by(s, rank).len() == s.len(),
    decreases s.len(),
{
    broadcast use vstd::seq_lib::group_to_multiset_ensures;

    if s.len() == 0 {
    } else {
        let rest = s.drop_first();
        lemma_sorted_by(rest, rank);
        lemma_place(sorted_by(rest, rank), s[0], rank);
        assert(s =~= rest.insert(0, s[0]));
        vstd::seq_lib::to_multiset_insert(rest, 0, s[0]);
    }
}

/// Placing commutes with a change of the items that keeps their ranks.
pub proof fn lemma_place_map<V>(t: Seq<V>, x: V, rank: spec_fn(V) -> int, f: spec_fn(V) -> V)
    requires
        forall|v: V| rank(#[trigger] f(v)) == rank(v),
    ensures
        place(t.map_values(f), f(x), rank) == place(t, x, rank).map_values(f),
    decreases t.len(),
{
    if t.len() == 0 || rank(x) <= rank(t[0]) {
        assert(seq![f(x)] + t.map_values(f) =~= (seq![x] + t).map_values(f));
    } else {
        lemma_place_map(t.drop_first(), x, rank, f);
        assert(t.map_values(f).drop_first() =~= t.drop_first().map_values(f));
        assert(seq![f(t[0])] + place(t.drop_first(), x, rank).map_values(f) =~= (seq![t[0]]
            + place(t.drop_first(), x, rank)).map_values(f));
    }
}

/// Sorting commutes with a change of the items that keeps their ranks.
pub proof fn lemma_sorted_by_map<V>(s: Seq<V>, rank: spec_fn(V) -> int, f: spec_fn(V) -> V)
    requires
        forall|v: V| rank(#[trigger] f(v)) == rank(v),
    ensures
        sorted_by(s.map_values(f), rank) == sorted_by(s, rank).map_values(f),
    decreases s.len(),
{
    if s.len() == 0 {
        assert(s.map_values(f) =~= sorted_by(s, rank).map_values(f));
    } else {
        lemma_sorted_by_map(s.drop_first(), rank, f);
        assert(s.map_values(f).drop_first() =~= s.drop_first().map_values(f));
        lemma_place_map(sorted_by(s.drop_first(), rank), s[0], rank, f);
    }
}

/// Every item of a sorted sequence is an item of the sequence that was
/// sorted.
pub proof fn lemma_sorted_by_contains<V>(s: Seq<V>, rank: spec_fn(V) -> int, i: int)
    requires
        0 <= i < sorted_by(s, rank).len(),
    ensures
        s.contains(sorted_by(s, rank)[i]),
{
    broadcast use vstd::seq_lib::group_to_multiset_ensures;

    lemma_sorted_by(s, rank);
    let t = sorted_by(s, rank);
    assert(t.contains(t[i]));
    assert(t.to_multiset().count(t[i]) > 0);
}

/// The rank by which episodes are sorted: the episode number.
pub open spec fn episode_rank() -> spec_fn(EpisodeView) -> int {
    |x: EpisodeView| x.episode_no
}

/// Episodes in ascending order of their number; episodes of equal number keep
/// their order.
pub open spec fn sort_episodes(s: Seq<EpisodeView>) -> Seq<EpisodeView> {
    sorted_by(s, episode_rank())
}

/// Sorts episodes by their number, ascending; episodes of equal number keep
/// their order.
pub fn sort_episodes_by_number(v: &mut Vec<Episode>)
    ensures
        views(final(v)@) == sort_episodes(views(old(v)@)),
{
    let ghost orig = views(v@);
    let ghost rank = episode_rank();
    let mut out: Vec<Episode> = Vec::new();
    assert(views(out@) =~= sorted_by(orig.skip(orig.len() as int), rank));
    assert(views(v@) =~= orig.take(v.len() as int));
    while v.len() > 0
        invariant
            v.len() <= orig.len(),
            rank == episode_rank(),
            views(v@) == orig.take(v.len() as int),
            views(out@) == sorted_by(orig.skip(v.len() as int), rank),
        decreases v.len(),
    {
        let ghost before = v@;
        let ghost n = v.len() as int;
        let x = v.pop().unwrap();
        assert(x@ == orig[n - 1]) by {
            assert(views(before)[n - 1] == before[n - 1]@);
        }
        let mut j: usize = 0;
        while j < out.len() && out[j].episode_no < x.episode_no
            invariant
                j <= out.len(),
                rank == episode_rank(),
                forall|i: int| 0 <= i < j ==> rank(#[trigger] views(out@)[i]) < rank(x@),
            decreases out.len() - j,
        {
            j = j + 1;
        }
        proof {
            let t = views(out@);
            lemma_place_at(t, x@, rank, j as int);
            assert(orig.skip(n - 1).drop_first() =~= orig.skip(n));
            assert(orig.skip(n - 1)[0] == x@);
            assert(views(out@.insert(j as int, x)) =~= t.insert(j as int, x@));
            assert(views(v@) =~= orig.take(n - 1)) by {
                assert forall|i: int| 0 <= i < n - 1 implies views(v@)[i] == orig.take(n - 1)[i] by {
                    assert(v@[i] == before[i]);
                    assert(views(before)[i] == before[i]@);
                }
            }
        }
        out.insert(j, x);
    }
    assert(orig.skip(0) =~= orig);
    *v = out;
}

/// The rank by which seasons are sorted: the season number.
pub open spec fn season_rank() -> spec_fn(SeasonView) -> int {
    |x: SeasonView| x.season_no
}

/// Seasons in ascending order of their number; seasons of equal number keep
/// their order.
pub open spec fn sort_seasons(s: Seq<SeasonView>) -> Seq<SeasonView> {
    sorted_by(s, season_rank())
}

/// Sorts seasons by their number, ascending; seasons of equal number keep
/// their order.
pub fn sort_seasons_by_number(v: &mut Vec<Season>)
    ensures
        views(final(v)@) == sort_seasons(views(old(v)@)),
{
    let ghost orig = views(v@);
    let ghost rank = season_rank();
    let mut out: Vec<Season> = Vec::new();
    assert(views(out@) =~= sorted_by(orig.skip(orig.len() as int), rank));
    assert(views(v@) =~= orig.take(v.len() as int));
    while v.len() > 0
        invariant
            v.len() <= orig.len(),
            rank == season_rank(),
            views(v@) == orig.take(v.len() as int),
            views(out@) == sorted_by(orig.skip(v.len() as int), rank),
        decreases v.len(),
    {
        let ghost before = v@;
        let ghost n = v.len() as int;
        let x = v.pop().unwrap();
        assert(x@ == orig[n - 1]) by {
            assert(views(before)[n - 1] == before[n - 1]@);
        }
        let mut j: usize = 0;
        while j < out.len() && out[j].season_no < x.season_no
            invariant
                j <= out.len(),
                rank == season_rank(),
                forall|i: int| 0 <= i < j ==> rank(#[trigger] views(out@)[i]) < rank(x@),
            decreases out.len() - j,
        {
            j = j + 1;
        }
        proof {
            let t = views(out@);
            lemma_place_at(t, x@, rank, j as int);
            assert(orig.skip(n - 1).drop_first() =~= orig.skip(n));
            assert(orig.skip(n - 1)[0] == x@);
            assert(views(out@.insert(j as int, x)) =~= t.insert(j as int, x@));
            assert(views(v@) =~= orig.take(n - 1)) by {
                assert forall|i: int| 0 <= i < n - 1 implies views(v@)[i] == orig.take(n - 1)[i] by {
                    assert(v@[i] == before[i]);
                    assert(views(before)[i] == before[i]@);
                }
            }
        }
        out.insert(j, x);
    }
    assert(orig.skip(0) =~= orig);
    *v = out;
}

} // verus!
