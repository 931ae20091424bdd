//! How bids are ranked against each other: the higher amount ranks higher,
//! and of two equal amounts the earlier bid does.

use vstd::prelude::*;
use crate::state::Bid;

verus! {

/// A bid together with the address that placed it.
#[derive(Clone, Debug, PartialEq)]
pub struct OwnedBid {
    pub bidder: String,
    pub bid: Bid,
}

/// What an `OwnedBid` stands for in specifications.
pub struct OwnedBidView {
    pub bidder: Seq<char>,
    pub bid: Bid,
}

impl View for OwnedBid {
    type V = OwnedBidView;

    open spec fn view(&self) -> OwnedBidView {
        OwnedBidView { bidder: self.bidder@, bid: self.bid }
    }
}

impl OwnedBid {
    /// The same bid of the same bidder.
    pub fn duplicate(&self) -> (copy: Self)
        ensures
            copy@ == self@,
    {
        OwnedBid { bidder: self.bidder.clone(), bid: self.bid }
    }
}

/// The views of a list of bids, in order.
pub open spec fn owned_views(list: Seq<OwnedBid>) -> Seq<OwnedBidView> {
    Seq::new(list.len(), |i: int| list[i]@)
}

/// `a` ranks strictly higher than `b`: it offers more, or it offers as much
/// and came earlier.
pub open spec fn outranks(a: Bid, b: Bid) -> bool {
    a.amount > b.amount || (a.amount == b.amount && a.timestamp < b.timestamp)
}

/// Tells whether `a` ranks strictly higher than `b`.
pub fn ranks_higher(a: &Bid, b: &Bid) -> (higher: bool)
    ensures
        higher == outranks(*a, *b),
{
    a.amount > b.amount || (a.amount == b.amount && a.timestamp < b.timestamp)
}

/// No bid of the list is outranked by one that stands before it.
pub open spec fn ascending(list: Seq<OwnedBidView>) -> bool {
    forall|i: int, j: int|
        0 <= i < j < list.len() ==> !outranks((#[trigger] list[i]).bid, (#[trigger] list[j]).bid)
}

/// `sorted` with `x` put in front of the bids at its end that outrank `x`.
pub open spec fn place(sorted: Seq<OwnedBidView>, x: OwnedBidView) -> Seq<OwnedBidView>
    decreases sorted.len(),
{
    if sorted.len() > 0 && outranks(sorted.last().bid, x.bid) {
        place(sorted.drop_last(), x).push(sorted.last())
    } else {
        sorted.push(x)
    }
}

/// The bids of `list` from the lowest rank to the highest: each in turn is
/// put in its place among those before it.
pub open spec fn rank_sorted(list: Seq<OwnedBidView>) -> Seq<OwnedBidView>
    decreases list.len(),
{
    if list.len() == 0 {
        list
    } else {
        place(rank_sorted(list.drop_last()), list.last())
    }
}

/// The bid that wins among those of `list`: the last in rank order.
pub open spec fn winner(list: Seq<OwnedBidView>) -> OwnedBidView
    recommends
        list.len() > 0,
{
    rank_sorted(list).last()
}

/// Placing `x` puts it at the place `at` when every bid from there on
/// outranks `x` and the one before does not.
pub proof fn lemma_place_at(sorted: Seq<OwnedBidView>, x: OwnedBidView, at: int)
    requires
        0 <= at <= sorted.len(),
        forall|k: int| at <= k < sorted.len() ==> outranks((#[trigger] sorted[k]).bid, x.bid),
        at > 0 ==> !outranks(sorted[at - 1].bid, x.bid),
    ensures
        place(sorted, x) == sorted.insert(at, x),
    decreases sorted.len(),
{
    if at == sorted.len() {
        assert(sorted.insert(at, x) =~= sorted.push(x));
    } else {
        assert(outranks(sorted[sorted.len() - 1].bid, x.bid));
        lemma_place_at(sorted.drop_last(), x, at);
        assert(sorted.drop_last().insert(at, x).push(sorted.last()) =~= sorted.insert(at, x));
    }
}

/// Placing a bid adds it, and nothing else, to the bids that were there.
pub proof fn lemma_place_permutes(sorted: Seq<OwnedBidView>, x: OwnedBidView)
    ensures
        place(sorted, x).to_multiset() == sorted.to_multiset().insert(x),
        place(sorted, x).len() == sorted.len() + 1,
    decreases sorted.len(),
{
    broadcast use vstd::seq_lib::group_to_multiset_ensures;

    if sorted.len() > 0 && outranks(sorted.last().bid, x.bid) {
        let front = sorted.drop_last();
        lemma_place_permutes(front, x);
        assert(sorted =~= front.push(sorted.last()));
        assert(place(sorted, x).to_multiset() =~= sorted.to_multiset().insert(x));
    }
}

/// Placing a bid into an ascending list leaves the list ascending.
pub proof fn lemma_place_ascending(sorted: Seq<OwnedBidView>, x: OwnedBidView)
    requires
        ascending(sorted),
    ensures
        ascending(place(sorted, x)),
        place(sorted, x).len() == sorted.len() + 1,
        forall|i: int|
            0 <= i < sorted.len() + 1 ==> (#[trigger] place(sorted, x)[i]) == x || sorted.contains(
                place(sorted, x)[i],
            ),
    decreases sorted.len(),
{
    let placed = place(sorted, x);
    if sorted.len() > 0 && outranks(sorted.last().bid, x.bid) {
        let front = sorted.drop_last();
        let top = sorted.last();
        assert(ascending(front)) by {
            assert forall|i: int, j: int| 0 <= i < j < front.len() implies !outranks(
                (#[trigger] front[i]).bid,
                (#[trigger] front[j]).bid,
            ) by {
                assert(front[i] == sorted[i] && front[j] == sorted[j]);
            }
        }
        lemma_place_ascending(front, x);
        let inner = place(front, x);
        assert forall|i: int| 0 <= i < sorted.len() + 1 implies (#[trigger] placed[i]) == x
            || sorted.contains(placed[i]) by {
            if i < inner.len() {
                assert(placed[i] == inner[i]);
                if inner[i] != x {
                    let w = choose|w: int| 0 <= w < front.len() && front[w] == inner[i];
                    assert(sorted[w] == inner[i]);
                }
            } else {
                assert(placed[i] == top);
                assert(sorted[sorted.len() - 1] == top);
            }
        }
        assert forall|i: int, j: int| 0 <= i < j < placed.len() implies !outranks(
            (#[trigger] placed[i]).bid,
            (#[trigger] placed[j]).bid,
        ) by {
            if j < inner.len() {
                assert(placed[i] == inner[i] && placed[j] == inner[j]);
            } else {
                assert(placed[j] == top);
                assert(placed[i] == inner[i]);
                if inner[i] != x {
                    let w = choose|w: int| 0 <= w < front.len() && front[w] == inner[i];
                    assert(sorted[w] == inner[i]);
                    assert(!outranks(sorted[w].bid, sorted[sorted.len() - 1].bid));
                }
            }
        }
    } else {
        assert forall|i: int| 0 <= i < sorted.len() + 1 implies (#[trigger] placed[i]) == x
            || sorted.contains(placed[i]) by {
            if i < sorted.len() {
                assert(sorted[i] == placed[i]);
            }
        }
        assert forall|i: int, j: int| 0 <= i < j < placed.len() implies !outranks(
            (#[trigger] placed[i]).bid,
            (#[trigger] placed[j]).bid,
        ) by {
            if j < sorted.len() {
                assert(placed[i] == sorted[i] && placed[j] == sorted[j]);
            } else if sorted.len() > 0 {
                assert(placed[i] == sorted[i]);
                assert(!outranks(sorted[i].bid, sorted[sorted.len() - 1].bid) || i == sorted.len()
                    - 1);
            }
        }
    }
}

/// Sorting by rank rearranges the bids and neither adds nor loses one.
pub proof fn lemma_rank_sorted_permutes(list: Seq<OwnedBidView>)
    ensures
        rank_sorted(list).to_multiset() == list.to_multiset(),
        rank_sorted(list).len() == list.len(),
    decreases list.len(),
{
    broadcast use vstd::seq_lib::group_to_multiset_ensures;

    if list.len() > 0 {
        let front = list.drop_last();
        lemma_rank_sorted_permutes(front);
        lemma_place_permutes(rank_sorted(front), list.last());
        assert(list =~= front.push(list.last()));
    }
}

/// Sorting by rank leaves no bid behind one that it outranks.
pub proof fn lemma_rank_sorted_ascending(list: Seq<OwnedBidView>)
    ensures
        ascending(rank_sorted(list)),
    decreases list.len(),
{
    if list.len() > 0 {
        lemma_rank_sorted_ascending(list.drop_last());
        lemma_place_ascending(rank_sorted(list.drop_last()), list.last());
    }
}

/// A bid is among the sorted bids exactly if it is among the bids.
pub proof fn lemma_rank_sorted_contains(list: Seq<OwnedBidView>, x: OwnedBidView)
    ensures
        rank_sorted(list).contains(x) <==> list.contains(x),
{
    lemma_rank_sorted_permutes(list);
    vstd::seq_lib::to_multiset_contains(rank_sorted(list), x);
    vstd::seq_lib::to_multiset_contains(list, x);
}

/// Sorts bids from the lowest rank to the highest.
pub fn sort_by_rank(list: &Vec<OwnedBid>) -> (sorted: Vec<OwnedBid>)
    ensures
        owned_views(sorted@) == rank_sorted(owned_views(list@)),
{
    let mut sorted: Vec<OwnedBid> = Vec::new();
    let mut i: usize = 0;
    assert(owned_views(list@).take(0) =~= Seq::<OwnedBidView>::empty());
    assert(owned_views(sorted@) =~= Seq::<OwnedBidView>::empty());
    while i < list.len()
        invariant
            i <= list.len(),
            owned_views(sorted@) == rank_sorted(owned_views(list@).take(i as int)),
        decreases list.len() - i,
    {
        let x = list[i].duplicate();
        let mut at: usize = sorted.len();
        while at > 0 && ranks_higher(&sorted[at - 1].bid, &x.bid)
            invariant
                at <= sorted.len(),
                forall|k: int| at <= k < sorted.len() ==> outranks((#[trigger] sorted[k]).bid, x.bid),
            decreases at,
        {
            at = at - 1;
        }
        let ghost before = owned_views(sorted@);
        sorted.insert(at, x);
        proof {
            let all = owned_views(list@);
            lemma_place_at(before, x@, at as int);
            assert(owned_views(sorted@) =~= before.insert(at as int, x@));
            assert(all.take(i + 1).drop_last() =~= all.take(i as int));
            assert(all.take(i + 1).last() == x@);
        }
        i = i + 1;
    }
    assert(owned_views(list@).take(list.len() as int) =~= owned_views(list@));
    sorted
}

} // verus!
