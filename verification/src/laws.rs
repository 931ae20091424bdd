//! What holds of the auction whatever it is told to do: nothing in escrow
//! is made or lost, the two latches never open again, ties go to the
//! earlier bid, and a closed auction can only be emptied.

use vstd::prelude::*;
use crate::contract::{
    bid_placed, bid_retracted, closed, consigned, handled, listed_bids, received, refunds,
    settled, told, EnvView, Handled,
};
use crate::msg::{
    transfer_call, ContractInfoView, CosmosMsgView, HandleAnswerView, HandleMsgView,
    ResponseStatus, TokenCallView,
};
use crate::order::{
    lemma_rank_sorted_ascending, lemma_rank_sorted_contains, lemma_rank_sorted_permutes, outranks,
    place, rank_sorted, winner, OwnedBidView,
};
use crate::state::{valid, Bid, StateView};

verus! {

/// What a call moves out of the escrow of the token at `token`.
pub open spec fn paid_by(call: CosmosMsgView, token: Seq<char>) -> int {
    match call.msg {
        TokenCallView::Transfer(t) => if call.contract_addr == token {
            t.amount as int
        } else {
            0
        },
        TokenCallView::RegisterReceive(_) => 0,
    }
}

/// What a list of calls moves out of the escrow of the token at `token`.
pub open spec fn paid_out(calls: Seq<CosmosMsgView>, token: Seq<char>) -> int
    decreases calls.len(),
{
    if calls.len() == 0 {
        0
    } else {
        paid_out(calls.drop_last(), token) + paid_by(calls.last(), token)
    }
}

/// The sum of the bids of a list.
pub open spec fn total_amount(list: Seq<OwnedBidView>) -> int
    decreases list.len(),
{
    if list.len() == 0 {
        0
    } else {
        total_amount(list.drop_last()) + list.last().bid.amount
    }
}

/// The bid tokens that an auction holds for its bidders.
pub open spec fn escrow(state: StateView, bids: Map<Seq<char>, Bid>) -> int {
    total_amount(listed_bids(state.bidders, bids))
}

/// Calls made one after the other pay out what each pays out.
pub proof fn lemma_paid_out_concat(a: Seq<CosmosMsgView>, b: Seq<CosmosMsgView>, token: Seq<char>)
    ensures
        paid_out(a + b, token) == paid_out(a, token) + paid_out(b, token),
    decreases b.len(),
{
    if b.len() == 0 {
        assert(a + b =~= a);
    } else {
        assert((a + b).drop_last() =~= a + b.drop_last());
        lemma_paid_out_concat(a, b.drop_last(), token);
    }
}

proof fn lemma_paid_out_one(call: CosmosMsgView, token: Seq<char>)
    ensures
        paid_out(seq![call], token) == paid_by(call, token),
{
    assert(seq![call].drop_last() =~= Seq::<CosmosMsgView>::empty());
    assert(paid_out(Seq::<CosmosMsgView>::empty(), token) == 0);
}

proof fn lemma_paid_out_two(first: CosmosMsgView, second: CosmosMsgView, token: Seq<char>)
    ensures
        paid_out(seq![first, second], token) == paid_by(first, token) + paid_by(second, token),
{
    assert(seq![first, second].drop_last() =~= seq![first]);
    lemma_paid_out_one(first, token);
}

/// Sending every bid of a list back pays out their sum, all of it from the
/// token they are sent by.
pub proof fn lemma_refunds_pay(from: ContractInfoView, list: Seq<OwnedBidView>, token: Seq<char>)
    ensures
        paid_out(refunds(from, list), token) == if from.address == token {
            total_amount(list)
        } else {
            0
        },
    decreases list.len(),
{
    if list.len() == 0 {
    } else {
        assert(refunds(from, list).drop_last() =~= refunds(from, list.drop_last()));
        lemma_refunds_pay(from, list.drop_last(), token);
    }
}

proof fn lemma_total_push(list: Seq<OwnedBidView>, x: OwnedBidView)
    ensures
        total_amount(list.push(x)) == total_amount(list) + x.bid.amount,
{
    assert(list.push(x).drop_last() =~= list);
}

proof fn lemma_total_place(sorted: Seq<OwnedBidView>, x: OwnedBidView)
    ensures
        total_amount(place(sorted, x)) == total_amount(sorted) + x.bid.amount,
    decreases sorted.len(),
{
    if sorted.len() > 0 && outranks(sorted.last().bid, x.bid) {
        lemma_total_place(sorted.drop_last(), x);
        lemma_total_push(place(sorted.drop_last(), x), sorted.last());
    } else {
        lemma_total_push(sorted, x);
    }
}

/// Sorting bids by rank leaves their sum as it is.
pub proof fn lemma_total_rank_sorted(list: Seq<OwnedBidView>)
    ensures
        total_amount(rank_sorted(list)) == total_amount(list),
    decreases list.len(),
{
    if list.len() > 0 {
        lemma_total_rank_sorted(list.drop_last());
        lemma_total_place(rank_sorted(list.drop_last()), list.last());
    }
}

proof fn lemma_total_update(list: Seq<OwnedBidView>, at: int, x: OwnedBidView)
    requires
        0 <= at < list.len(),
    ensures
        total_amount(list.update(at, x)) + list[at].bid.amount == total_amount(list)
            + x.bid.amount,
    decreases list.len(),
{
    if at == list.len() - 1 {
        assert(list.update(at, x).drop_last() =~= list.drop_last());
    } else {
        assert(list.update(at, x).drop_last() =~= list.drop_last().update(at, x));
        lemma_total_update(list.drop_last(), at, x);
    }
}

proof fn lemma_total_remove(list: Seq<OwnedBidView>, at: int)
    requires
        0 <= at < list.len(),
    ensures
        total_amount(list.remove(at)) + list[at].bid.amount == total_amount(list),
    decreases list.len(),
{
    if at == list.len() - 1 {
        assert(list.remove(at) =~= list.drop_last());
    } else {
        assert(list.remove(at).drop_last() =~= list.drop_last().remove(at));
        assert(list.remove(at).last() == list.last());
        lemma_total_remove(list.drop_last(), at);
    }
}

/// Consigning keeps the books: what comes in is in escrow or on its way
/// back, and the bids are not touched.
pub proof fn law_consign_conserves(
    state: StateView,
    bids: Map<Seq<char>, Bid>,
    owner: Seq<char>,
    amount: u128,
)
    requires
        valid(state, bids),
    ensures
        ({
            let after = consigned(state, bids, owner, amount);
            &&& valid(after.state, after.bids)
            &&& state.currently_consigned + amount == after.state.currently_consigned + paid_out(
                after.response.messages,
                state.sell_contract.address,
            )
            &&& escrow(after.state, after.bids) == escrow(state, bids)
            &&& paid_out(after.response.messages, state.bid_contract.address) == 0
        }),
{
    let after = consigned(state, bids, owner, amount);
    let sale = state.sell_contract.address;
    let bid = state.bid_contract.address;
    lemma_paid_out_one(transfer_call(state.sell_contract, owner, amount), sale);
    lemma_paid_out_one(transfer_call(state.sell_contract, owner, amount), bid);
    if owner == state.seller && !state.is_completed && !state.tokens_consigned {
        if state.currently_consigned + amount >= state.sell_amount {
            let excess = (state.currently_consigned + amount - state.sell_amount) as u128;
            lemma_paid_out_one(transfer_call(state.sell_contract, owner, excess), sale);
            lemma_paid_out_one(transfer_call(state.sell_contract, owner, excess), bid);
        }
    }
}

/// Bidding keeps the books: what comes in is in escrow or on its way back,
/// what a higher bid replaces goes back, and the sale tokens are not
/// touched.
pub proof fn law_bid_conserves(
    state: StateView,
    bids: Map<Seq<char>, Bid>,
    bidder: Seq<char>,
    amount: u128,
    time: u64,
)
    requires
        valid(state, bids),
    ensures
        ({
            let after = bid_placed(state, bids, bidder, amount, time);
            &&& valid(after.state, after.bids)
            &&& after.state.currently_consigned == state.currently_consigned
            &&& paid_out(after.response.messages, state.sell_contract.address) == 0
            &&& escrow(state, bids) + amount == escrow(after.state, after.bids) + paid_out(
                after.response.messages,
                state.bid_contract.address,
            )
        }),
{
    let after = bid_placed(state, bids, bidder, amount, time);
    let sale = state.sell_contract.address;
    let bid = state.bid_contract.address;
    let list = listed_bids(state.bidders, bids);
    lemma_paid_out_one(transfer_call(state.bid_contract, bidder, amount), sale);
    lemma_paid_out_one(transfer_call(state.bid_contract, bidder, amount), bid);
    if !state.is_completed && amount != 0 && amount >= state.minimum_bid {
        let entry = OwnedBidView { bidder, bid: Bid { amount, timestamp: time } };
        if bids.dom().contains(bidder) {
            let standing = bids[bidder].amount;
            if amount > standing {
                lemma_paid_out_one(transfer_call(state.bid_contract, bidder, standing), sale);
                lemma_paid_out_one(transfer_call(state.bid_contract, bidder, standing), bid);
                assert(state.bidders.contains(bidder));
                let at = choose|i: int| 0 <= i < state.bidders.len() && state.bidders[i] == bidder;
                assert(listed_bids(after.state.bidders, after.bids) =~= list.update(at, entry));
                lemma_total_update(list, at, entry);
            }
        } else {
            assert(!state.bidders.contains(bidder));
            assert(listed_bids(after.state.bidders, after.bids) =~= list.push(entry));
            lemma_total_push(list, entry);
            let listed = after.state.bidders;
            assert forall|i: int, j: int|
                0 <= i < listed.len() && 0 <= j < listed.len() && i != j implies listed[i]
                != listed[j] by {
                if i < state.bidders.len() {
                    assert(state.bidders.contains(state.bidders[i]));
                }
                if j < state.bidders.len() {
                    assert(state.bidders.contains(state.bidders[j]));
                }
            }
            assert forall|k: Seq<char>|
                #![trigger listed.contains(k)]
                #![trigger after.bids.dom().contains(k)]
                listed.contains(k) <==> after.bids.dom().contains(k) by {
                if listed.contains(k) {
                    let i = choose|i: int| 0 <= i < listed.len() && listed[i] == k;
                    if i < state.bidders.len() {
                        assert(state.bidders.contains(state.bidders[i]));
                    }
                }
                if after.bids.dom().contains(k) {
                    if k == bidder {
                        assert(listed[state.bidders.len() as int] == k);
                    } else {
                        assert(state.bidders.contains(k));
                        let i = choose|i: int|
                            0 <= i < state.bidders.len() && state.bidders[i] == k;
                        assert(listed[i] == k);
                    }
                }
            }
        }
    }
}

/// Retracting keeps the books: the bid that leaves the escrow goes back,
/// and the sale tokens are not touched.
pub proof fn law_retract_conserves(state: StateView, bids: Map<Seq<char>, Bid>, bidder: Seq<char>)
    requires
        valid(state, bids),
    ensures
        ({
            let after = bid_retracted(state, bids, bidder);
            &&& valid(after.state, after.bids)
            &&& after.state.currently_consigned == state.currently_consigned
            &&& paid_out(after.response.messages, state.sell_contract.address) == 0
            &&& escrow(state, bids) == escrow(after.state, after.bids) + paid_out(
                after.response.messages,
                state.bid_contract.address,
            )
        }),
{
    let after = bid_retracted(state, bids, bidder);
    let sale = state.sell_contract.address;
    let bid = state.bid_contract.address;
    let list = listed_bids(state.bidders, bids);
    if bids.dom().contains(bidder) {
        let call = transfer_call(state.bid_contract, bidder, bids[bidder].amount);
        lemma_paid_out_one(call, sale);
        lemma_paid_out_one(call, bid);
        assert(state.bidders.contains(bidder));
        let at = state.bidders.index_of(bidder);
        crate::contract::lemma_remove_listed(state.bidders, at);
        assert(listed_bids(after.state.bidders, after.bids) =~= list.remove(at)) by {
            let rest = state.bidders.remove(at);
            assert forall|i: int| 0 <= i < rest.len() implies rest[i] != bidder by {
                assert(rest.contains(rest[i]));
            }
        }
        lemma_total_remove(list, at);
    }
}

/// Closing keeps the books: the winning bid goes to the seller and the
/// tokens for sale to the winner, every other bid goes back to its bidder,
/// and sale tokens that are left go back to the seller. Nothing stays in
/// escrow.
pub proof fn law_close_conserves(
    state: StateView,
    bids: Map<Seq<char>, Bid>,
    caller: Seq<char>,
    only_if_bids: bool,
    return_all: bool,
)
    requires
        valid(state, bids),
    ensures
        ({
            let after = closed(state, bids, caller, only_if_bids, return_all);
            &&& valid(after.state, after.bids)
            &&& state.currently_consigned == after.state.currently_consigned + paid_out(
                after.response.messages,
                state.sell_contract.address,
            )
            &&& escrow(state, bids) == escrow(after.state, after.bids) + paid_out(
                after.response.messages,
                state.bid_contract.address,
            )
        }),
{
    let after = closed(state, bids, caller, only_if_bids, return_all);
    let sale = state.sell_contract.address;
    let bid = state.bid_contract.address;
    if after == settled(state, bids, return_all) && !(return_all && !state.is_completed) && !(
    !return_all && caller != state.seller) && !(!state.is_completed && only_if_bids
        && state.bidders.len() == 0) {
        let list = listed_bids(state.bidders, bids);
        let ranked = rank_sorted(list);
        let selling = state.tokens_consigned && !state.is_completed && list.len() > 0;
        lemma_rank_sorted_permutes(list);
        lemma_total_rank_sorted(list);
        let swap = if selling {
            seq![
                transfer_call(state.bid_contract, state.seller, ranked.last().bid.amount),
                transfer_call(state.sell_contract, ranked.last().bidder, state.sell_amount),
            ]
        } else {
            Seq::empty()
        };
        let back = if selling {
            refunds(state.bid_contract, ranked.drop_last())
        } else {
            refunds(state.bid_contract, list)
        };
        let left: u128 = if selling {
            0
        } else {
            state.currently_consigned
        };
        let rest = if left > 0 {
            seq![transfer_call(state.sell_contract, state.seller, left)]
        } else {
            Seq::empty()
        };
        assert(after.response.messages == swap + back + rest);
        lemma_paid_out_concat(swap + back, rest, sale);
        lemma_paid_out_concat(swap, back, sale);
        lemma_paid_out_concat(swap + back, rest, bid);
        lemma_paid_out_concat(swap, back, bid);
        if selling {
            lemma_paid_out_two(swap[0], swap[1], sale);
            lemma_paid_out_two(swap[0], swap[1], bid);
            lemma_refunds_pay(state.bid_contract, ranked.drop_last(), sale);
            lemma_refunds_pay(state.bid_contract, ranked.drop_last(), bid);
        } else {
            lemma_refunds_pay(state.bid_contract, list, sale);
            lemma_refunds_pay(state.bid_contract, list, bid);
        }
        if left > 0 {
            lemma_paid_out_one(rest[0], sale);
            lemma_paid_out_one(rest[0], bid);
        }
        assert(listed_bids(after.state.bidders, after.bids) =~= Seq::<OwnedBidView>::empty());
    }
}

/// What an instruction brings into the escrow of the token at `token`:
/// the amount that this token reports as received.
pub open spec fn taken_in(env: EnvView, msg: HandleMsgView, token: Seq<char>) -> int {
    match msg {
        HandleMsgView::Receive { amount, .. } => if env.sender == token {
            amount as int
        } else {
            0
        },
        _ => 0,
    }
}

/// The calls that an instruction asks for; none where it goes without a
/// response.
pub open spec fn calls_of(after: Handled) -> Seq<CosmosMsgView> {
    match after.result {
        Ok(response) => response.messages,
        Err(_) => Seq::empty(),
    }
}

/// What is fixed when an auction is created stays as it is.
pub open spec fn same_terms(before: StateView, after: StateView) -> bool {
    &&& after.auction_addr == before.auction_addr
    &&& after.seller == before.seller
    &&& after.sell_contract == before.sell_contract
    &&& after.bid_contract == before.bid_contract
    &&& after.sell_amount == before.sell_amount
    &&& after.minimum_bid == before.minimum_bid
    &&& after.description == before.description
}

/// Neither latch opens again.
pub open spec fn latches_hold(before: StateView, after: StateView) -> bool {
    &&& before.tokens_consigned ==> after.tokens_consigned
    &&& before.is_completed ==> after.is_completed
}

/// Any one instruction leaves a valid auction valid, its terms and its
/// latches as they were, and keeps the books of both tokens: what was in
/// escrow and what came in is what is in escrow and what went out.
pub proof fn law_step_conserves(
    state: StateView,
    bids: Map<Seq<char>, Bid>,
    env: EnvView,
    msg: HandleMsgView,
)
    requires
        valid(state, bids),
    ensures
        ({
            let after = handled(state, bids, env, msg);
            let sale = state.sell_contract.address;
            let bid = state.bid_contract.address;
            &&& valid(after.state, after.bids)
            &&& same_terms(state, after.state)
            &&& latches_hold(state, after.state)
            &&& state.currently_consigned + taken_in(env, msg, sale)
                == after.state.currently_consigned + paid_out(calls_of(after), sale)
            &&& escrow(state, bids) + taken_in(env, msg, bid) == escrow(after.state, after.bids)
                + paid_out(calls_of(after), bid)
            &&& after.result is Err ==> after.state == state && after.bids == bids
        }),
{
    match msg {
        HandleMsgView::RetractBid {  } => {
            law_retract_conserves(state, bids, env.sender);
        },
        HandleMsgView::Finalize { only_if_bids } => {
            law_close_conserves(state, bids, env.sender, only_if_bids, false);
        },
        HandleMsgView::ReturnAll {  } => {
            law_close_conserves(state, bids, env.sender, false, true);
        },
        HandleMsgView::Receive { from, amount, .. } => {
            if env.sender == state.sell_contract.address {
                law_consign_conserves(state, bids, from, amount);
            } else if env.sender == state.bid_contract.address {
                law_bid_conserves(state, bids, from, amount, env.time);
            }
        },
        HandleMsgView::ViewBid {  } => {},
    }
}

/// An instruction together with what the host chain tells about it.
pub struct Step {
    pub env: EnvView,
    pub msg: HandleMsgView,
}

/// The state and the ledger of an auction.
pub struct Books {
    pub state: StateView,
    pub bids: Map<Seq<char>, Bid>,
}

/// The auction after the instructions of `steps`, one after the other.
pub open spec fn after_all(start: Books, steps: Seq<Step>) -> Books
    decreases steps.len(),
{
    if steps.len() == 0 {
        start
    } else {
        let next = handled(start.state, start.bids, steps[0].env, steps[0].msg);
        after_all(Books { state: next.state, bids: next.bids }, steps.drop_first())
    }
}

/// All that the instructions of `steps` bring into the escrow of the token
/// at `token`.
pub open spec fn all_taken_in(steps: Seq<Step>, token: Seq<char>) -> int
    decreases steps.len(),
{
    if steps.len() == 0 {
        0
    } else {
        taken_in(steps[0].env, steps[0].msg, token) + all_taken_in(steps.drop_first(), token)
    }
}

/// All that the instructions of `steps`, one after the other, move out of
/// the escrow of the token at `token`.
pub open spec fn all_paid_out(start: Books, steps: Seq<Step>, token: Seq<char>) -> int
    decreases steps.len(),
{
    if steps.len() == 0 {
        0
    } else {
        let next = handled(start.state, start.bids, steps[0].env, steps[0].msg);
        paid_out(calls_of(next), token) + all_paid_out(
            Books { state: next.state, bids: next.bids },
            steps.drop_first(),
            token,
        )
    }
}

/// Conservation. Whatever the instructions and whoever sends them, the sale
/// tokens that were in escrow and those that came in are those that are in
/// escrow and those that went out, to the seller or to the winner; and the
/// bid tokens that were held for the bidders and those that came in are
/// those that are held for the bidders and those that went out, to a
/// bidder or to the seller. The auction stays valid, keeps its terms, and
/// neither latch opens again.
pub proof fn law_conservation(start: Books, steps: Seq<Step>)
    requires
        valid(start.state, start.bids),
    ensures
        ({
            let end = after_all(start, steps);
            let sale = start.state.sell_contract.address;
            let bid = start.state.bid_contract.address;
            &&& valid(end.state, end.bids)
            &&& same_terms(start.state, end.state)
            &&& latches_hold(start.state, end.state)
            &&& start.state.currently_consigned + all_taken_in(steps, sale)
                == end.state.currently_consigned + all_paid_out(start, steps, sale)
            &&& escrow(start.state, start.bids) + all_taken_in(steps, bid) == escrow(
                end.state,
                end.bids,
            ) + all_paid_out(start, steps, bid)
        }),
    decreases steps.len(),
{
    if steps.len() > 0 {
        law_step_conserves(start.state, start.bids, steps[0].env, steps[0].msg);
        let next = handled(start.state, start.bids, steps[0].env, steps[0].msg);
        law_conservation(Books { state: next.state, bids: next.bids }, steps.drop_first());
    }
}

/// One-way latches. Once the consignment is complete it stays complete, and
/// once the auction is closed it stays closed, whatever instructions follow.
pub proof fn law_latches(start: Books, steps: Seq<Step>)
    requires
        valid(start.state, start.bids),
    ensures
        start.state.tokens_consigned ==> after_all(start, steps).state.tokens_consigned,
        start.state.is_completed ==> after_all(start, steps).state.is_completed,
{
    law_conservation(start, steps);
}

/// A closed auction can only be emptied: no instruction adds to the sale
/// tokens in escrow or to the bids held, and none lists a bidder who was
/// not listed.
pub proof fn law_closed_only_empties(
    state: StateView,
    bids: Map<Seq<char>, Bid>,
    env: EnvView,
    msg: HandleMsgView,
)
    requires
        valid(state, bids),
        state.is_completed,
    ensures
        ({
            let after = handled(state, bids, env, msg);
            &&& after.state.currently_consigned <= state.currently_consigned
            &&& escrow(after.state, after.bids) <= escrow(state, bids)
            &&& forall|k: Seq<char>| #[trigger]
                after.state.bidders.contains(k) ==> state.bidders.contains(k)
        }),
{
    let after = handled(state, bids, env, msg);
    law_step_conserves(state, bids, env, msg);
    lemma_paid_out_nonnegative(calls_of(after), state.sell_contract.address);
    lemma_paid_out_nonnegative(calls_of(after), state.bid_contract.address);
    match msg {
        HandleMsgView::RetractBid {  } => {
            if bids.dom().contains(env.sender) {
                assert(state.bidders.contains(env.sender));
                crate::contract::lemma_remove_listed(
                    state.bidders,
                    state.bidders.index_of(env.sender),
                );
            }
        },
        HandleMsgView::Receive { from, amount, .. } => {
            let call = if env.sender == state.sell_contract.address {
                transfer_call(state.sell_contract, from, amount)
            } else {
                transfer_call(state.bid_contract, from, amount)
            };
            lemma_paid_out_one(call, state.sell_contract.address);
            lemma_paid_out_one(call, state.bid_contract.address);
        },
        _ => {},
    }
}

proof fn lemma_paid_out_nonnegative(calls: Seq<CosmosMsgView>, token: Seq<char>)
    ensures
        paid_out(calls, token) >= 0,
    decreases calls.len(),
{
    if calls.len() > 0 {
        lemma_paid_out_nonnegative(calls.drop_last(), token);
    }
}

/// The winner is one of the bids, and no bid outranks it.
pub proof fn law_winner_unbeaten(list: Seq<OwnedBidView>)
    requires
        list.len() > 0,
    ensures
        list.contains(winner(list)),
        forall|i: int| 0 <= i < list.len() ==> !outranks((#[trigger] list[i]).bid, winner(list).bid),
{
    let ranked = rank_sorted(list);
    lemma_rank_sorted_permutes(list);
    lemma_rank_sorted_ascending(list);
    let top = ranked.len() - 1;
    assert(ranked.contains(ranked[top]));
    lemma_rank_sorted_contains(list, winner(list));
    assert forall|i: int| 0 <= i < list.len() implies !outranks(
        (#[trigger] list[i]).bid,
        winner(list).bid,
    ) by {
        assert(list.contains(list[i]));
        lemma_rank_sorted_contains(list, list[i]);
        let at = choose|at: int| 0 <= at < ranked.len() && ranked[at] == list[i];
        if at < top {
            assert(!outranks(ranked[at].bid, ranked[top].bid));
        }
    }
}

/// The winner is found by going through the bids in the order of the list:
/// each bid takes the lead unless the bid that leads outranks it. So of
/// bids that differ neither in amount nor in time, the one listed last
/// wins.
pub proof fn law_winner_scan(list: Seq<OwnedBidView>, next: OwnedBidView)
    ensures
        winner(list.push(next)) == if list.len() > 0 && outranks(winner(list).bid, next.bid) {
            winner(list)
        } else {
            next
        },
{
    lemma_rank_sorted_permutes(list);
    assert(list.push(next).drop_last() =~= list);
}

/// Tie-break. Of two bids of the same amount, the later one never wins,
/// in whatever order the bids are looked at.
pub proof fn law_later_bid_loses_tie(list: Seq<OwnedBidView>, early: OwnedBidView, late: OwnedBidView)
    requires
        list.contains(early),
        list.contains(late),
        early.bid.amount == late.bid.amount,
        early.bid.timestamp < late.bid.timestamp,
    ensures
        winner(list).bid != late.bid,
{
    law_winner_unbeaten(list);
    let at = choose|at: int| 0 <= at < list.len() && list[at] == early;
    assert(!outranks(list[at].bid, winner(list).bid));
}

/// Tie-break. A bid that outranks every other bid wins, in whatever order
/// the bids are looked at: so the earlier of two bids of the same amount
/// wins where no third bid is higher.
pub proof fn law_top_bid_wins(list: Seq<OwnedBidView>, top: OwnedBidView)
    requires
        list.contains(top),
        forall|i: int|
            0 <= i < list.len() ==> (#[trigger] list[i]) == top || outranks(top.bid, list[i].bid),
    ensures
        winner(list) == top,
{
    law_winner_unbeaten(list);
    let w = choose|w: int| 0 <= w < list.len() && list[w] == winner(list);
    let at = choose|at: int| 0 <= at < list.len() && list[at] == top;
    assert(list[w] == top || outranks(top.bid, list[w].bid));
    assert(!outranks(list[at].bid, winner(list).bid));
}

/// Tie-break. The amount and the time of the winning bid depend on the bids
/// alone, not on the order in which they are listed.
pub proof fn law_winner_order_free(first: Seq<OwnedBidView>, second: Seq<OwnedBidView>)
    requires
        first.len() > 0,
        first.to_multiset() == second.to_multiset(),
    ensures
        winner(first).bid == winner(second).bid,
{
    vstd::seq_lib::to_multiset_len(first);
    vstd::seq_lib::to_multiset_len(second);
    law_winner_unbeaten(first);
    law_winner_unbeaten(second);
    let a = winner(first);
    let b = winner(second);
    vstd::seq_lib::to_multiset_contains(first, a);
    vstd::seq_lib::to_multiset_contains(second, a);
    vstd::seq_lib::to_multiset_contains(first, b);
    vstd::seq_lib::to_multiset_contains(second, b);
    let i = choose|i: int| 0 <= i < second.len() && second[i] == a;
    let j = choose|j: int| 0 <= j < first.len() && first[j] == b;
    assert(!outranks(second[i].bid, b.bid));
    assert(!outranks(first[j].bid, a.bid));
}

/// The answer to a sweep that finds the auction closed.
pub open spec fn swept() -> HandleAnswerView {
    HandleAnswerView::CloseAuction {
        status: ResponseStatus::Success,
        message: "Outstanding funds have been returned"@,
        winning_bid: None,
        amount_returned: None,
    }
}

/// Idempotent safety net. On a closed auction every sweep succeeds with the
/// same answer; the first leaves nothing in escrow, and any further one
/// asks for no transfer and changes nothing.
pub proof fn law_return_all_idempotent(
    state: StateView,
    bids: Map<Seq<char>, Bid>,
    first_caller: Seq<char>,
    second_caller: Seq<char>,
)
    requires
        valid(state, bids),
        state.is_completed,
    ensures
        ({
            let once = closed(state, bids, first_caller, false, true);
            let twice = closed(once.state, once.bids, second_caller, false, true);
            &&& once.response.data == Some(swept())
            &&& once.state.currently_consigned == 0
            &&& once.state.bidders.len() == 0
            &&& once.bids == Map::<Seq<char>, Bid>::empty()
            &&& twice.state == once.state
            &&& twice.bids == once.bids
            &&& twice.response == told(Seq::empty(), swept())
        }),
{
    let once = closed(state, bids, first_caller, false, true);
    let twice = closed(once.state, once.bids, second_caller, false, true);
    assert(listed_bids(once.state.bidders, once.bids) =~= Seq::<OwnedBidView>::empty());
    assert(refunds(once.state.bid_contract, Seq::<OwnedBidView>::empty()) =~= Seq::<
        CosmosMsgView,
    >::empty());
    assert(twice.response.messages =~= Seq::<CosmosMsgView>::empty());
}

/// Bid replacement. While the auction is open, a bid that is strictly
/// higher than the bidder's standing bid is accepted, takes its place in
/// the ledger, and sends exactly the standing bid back to the same bidder,
/// with no other transfer.
pub proof fn law_higher_bid_replaces(
    state: StateView,
    bids: Map<Seq<char>, Bid>,
    bidder: Seq<char>,
    amount: u128,
    time: u64,
)
    requires
        valid(state, bids),
        !state.is_completed,
        bids.dom().contains(bidder),
        amount > bids[bidder].amount,
    ensures
        ({
            let after = bid_placed(state, bids, bidder, amount, time);
            &&& after.state == state
            &&& after.bids == bids.insert(bidder, Bid { amount, timestamp: time })
            &&& after.response.messages == seq![
                transfer_call(state.bid_contract, bidder, bids[bidder].amount),
            ]
            &&& after.response.log matches Some(
                HandleAnswerView::Bid { status, amount_bid, amount_returned, .. },
            ) && status == ResponseStatus::Success && amount_bid == Some(amount)
                && amount_returned == Some(bids[bidder].amount)
        }),
{
}

} // verus!
