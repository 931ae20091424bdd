//! The auction's operations. Each takes the state and the bid ledger as they
//! stand, changes them, and returns the calls to the token contracts that
//! the change asks for, in order, with an answer for whoever sent the
//! instruction. An operation that refuses an instruction changes nothing.

use vstd::prelude::*;
use vstd::string::*;
use crate::error::ContractError;
use crate::msg::{
    calls_view, opt_answer, register_call, transfer_call, ContractInfo, ContractInfoView,
    CosmosMsg, CosmosMsgView, HandleAnswer, HandleAnswerView, HandleMsg, HandleMsgView, InitMsg,
    InitMsgView, QueryAnswer, QueryAnswerView, QueryMsg, ResponseStatus, Token, TokenInfo,
    TokenInfoView, TokenQuery, TokenView,
};
use crate::order::{owned_views, rank_sorted, sort_by_rank, OwnedBid, OwnedBidView};
use crate::state::{may_load, remove, save, valid, Bid, BidStore, State, StateView};
use crate::text::{render_timestamp, utc_date_time, MAX_TIMESTAMP};

verus! {

/// Answers and log entries are padded to a multiple of this many bytes.
pub const BLOCK_SIZE: usize = 256;

/// What an operation hands back: the calls to make, and the answer, which is
/// either logged or returned as data.
#[derive(Clone, Debug, PartialEq)]
pub struct HandleResponse {
    pub messages: Vec<CosmosMsg>,
    pub log: Option<HandleAnswer>,
    pub data: Option<HandleAnswer>,
}

/// What a `HandleResponse` stands for in specifications.
pub struct HandleResponseView {
    pub messages: Seq<CosmosMsgView>,
    pub log: Option<HandleAnswerView>,
    pub data: Option<HandleAnswerView>,
}

impl View for HandleResponse {
    type V = HandleResponseView;

    open spec fn view(&self) -> HandleResponseView {
        HandleResponseView {
            messages: calls_view(self.messages@),
            log: opt_answer(self.log),
            data: opt_answer(self.data),
        }
    }
}

/// A response that logs its answer.
pub open spec fn logged(messages: Seq<CosmosMsgView>, answer: HandleAnswerView)
    -> HandleResponseView {
    HandleResponseView { messages, log: Some(answer), data: None }
}

/// A response that returns its answer as data.
pub open spec fn told(messages: Seq<CosmosMsgView>, answer: HandleAnswerView)
    -> HandleResponseView {
    HandleResponseView { messages, log: None, data: Some(answer) }
}

/// The state, the ledger and the response that an operation leaves.
pub struct Outcome {
    pub state: StateView,
    pub bids: Map<Seq<char>, Bid>,
    pub response: HandleResponseView,
}

impl HandleResponse {
    fn logging(messages: Vec<CosmosMsg>, answer: HandleAnswer) -> (response: Self)
        ensures
            response@ == logged(calls_view(messages@), answer@),
    {
        HandleResponse { messages, log: Some(answer), data: None }
    }

    fn telling(messages: Vec<CosmosMsg>, answer: HandleAnswer) -> (response: Self)
        ensures
            response@ == told(calls_view(messages@), answer@),
    {
        HandleResponse { messages, log: None, data: Some(answer) }
    }
}

fn no_calls() -> (calls: Vec<CosmosMsg>)
    ensures
        calls_view(calls@) == Seq::<CosmosMsgView>::empty(),
{
    let calls: Vec<CosmosMsg> = Vec::new();
    assert(calls_view(calls@) =~= Seq::<CosmosMsgView>::empty());
    calls
}

fn one_call(call: CosmosMsg) -> (calls: Vec<CosmosMsg>)
    ensures
        calls_view(calls@) == seq![call@],
{
    let mut calls: Vec<CosmosMsg> = Vec::new();
    calls.push(call);
    assert(calls_view(calls@) =~= seq![call@]);
    calls
}

fn add_call(calls: &mut Vec<CosmosMsg>, call: CosmosMsg)
    ensures
        calls_view(final(calls)@) == calls_view(old(calls)@).push(call@),
{
    calls.push(call);
    assert(calls_view(calls@) =~= calls_view(old(calls)@).push(call@));
}

/// The answer to a consignment that is sent back whole.
pub open spec fn consign_refused(message: Seq<char>, consigned: Option<u128>, amount: u128)
    -> HandleAnswerView {
    HandleAnswerView::Consign {
        status: ResponseStatus::Failure,
        message,
        amount_consigned: consigned,
        amount_needed: None,
        amount_returned: Some(amount),
    }
}

/// What a consignment of `amount` sale tokens by `owner` leads to.
///
/// Only the seller consigns, only while the auction is open, and only until
/// the amount for sale is in escrow: any other consignment is sent back
/// whole. A consignment that leaves the escrow short is kept and answered
/// with what is still needed. One that fills the escrow completes the
/// consignment; what it brings beyond the amount for sale is sent back.
pub open spec fn consigned(state: StateView, bids: Map<Seq<char>, Bid>, owner: Seq<char>, amount: u128)
    -> Outcome {
    let refund = seq![transfer_call(state.sell_contract, owner, amount)];
    if owner != state.seller {
        Outcome {
            state,
            bids,
            response: logged(
                refund,
                consign_refused(
                    "Only auction creator can consign tokens for sale.  Your tokens have been returned"@,
                    None,
                    amount,
                ),
            ),
        }
    } else if state.is_completed {
        Outcome {
            state,
            bids,
            response: logged(
                refund,
                consign_refused("Auction has ended. Your tokens have been returned"@, None, amount),
            ),
        }
    } else if state.tokens_consigned {
        Outcome {
            state,
            bids,
            response: logged(
                refund,
                consign_refused(
                    "Tokens to be sold have already been consigned. Your tokens have been returned"@,
                    Some(state.currently_consigned),
                    amount,
                ),
            ),
        }
    } else if state.currently_consigned + amount < state.sell_amount {
        let total = (state.currently_consigned + amount) as u128;
        Outcome {
            state: StateView { currently_consigned: total, ..state },
            bids,
            response: logged(
                Seq::empty(),
                HandleAnswerView::Consign {
                    status: ResponseStatus::Failure,
                    message: "You have not consigned the full amount to be sold.  You need to consign additional tokens"@,
                    amount_consigned: Some(total),
                    amount_needed: Some((state.sell_amount - total) as u128),
                    amount_returned: None,
                },
            ),
        }
    } else {
        let excess = (state.currently_consigned + amount - state.sell_amount) as u128;
        let full = StateView {
            tokens_consigned: true,
            currently_consigned: state.sell_amount,
            ..state
        };
        if excess > 0 {
            Outcome {
                state: full,
                bids,
                response: logged(
                    seq![transfer_call(state.sell_contract, owner, excess)],
                    HandleAnswerView::Consign {
                        status: ResponseStatus::Success,
                        message: "Tokens to be sold have been consigned to the auction"@
                            + ".  Excess tokens have been returned"@,
                        amount_consigned: Some(state.sell_amount),
                        amount_needed: None,
                        amount_returned: Some(excess),
                    },
                ),
            }
        } else {
            Outcome {
                state: full,
                bids,
                response: logged(
                    Seq::empty(),
                    HandleAnswerView::Consign {
                        status: ResponseStatus::Success,
                        message: "Tokens to be sold have been consigned to the auction"@,
                        amount_consigned: Some(state.sell_amount),
                        amount_needed: None,
                        amount_returned: None,
                    },
                ),
            }
        }
    }
}

fn refuse_consignment(
    state: &State,
    owner: &String,
    amount: u128,
    message: &str,
    consigned: Option<u128>,
) -> (response: HandleResponse)
    ensures
        response@ == logged(
            seq![transfer_call(state@.sell_contract, owner@, amount)],
            consign_refused(message@, consigned, amount),
        ),
{
    HandleResponse::logging(
        one_call(state.sell_contract.transfer_msg(owner, amount)),
        HandleAnswer::Consign {
            status: ResponseStatus::Failure,
            message: message.to_owned(),
            amount_consigned: consigned,
            amount_needed: None,
            amount_returned: Some(amount),
        },
    )
}

/// Takes sale tokens that `owner` sent into escrow.
pub fn try_consign(bids: &BidStore, owner: &String, amount: u128, state: &mut State) -> (response:
    HandleResponse)
    requires
        valid(old(state)@, bids@),
    ensures
        (Outcome { state: final(state)@, bids: bids@, response: response@ }) == consigned(
            old(state)@,
            bids@,
            owner@,
            amount,
        ),
        valid(final(state)@, bids@),
{
    if !(*owner == state.seller) {
        return refuse_consignment(
            state,
            owner,
            amount,
            "Only auction creator can consign tokens for sale.  Your tokens have been returned",
            None,
        );
    }
    if state.is_completed {
        return refuse_consignment(
            state,
            owner,
            amount,
            "Auction has ended. Your tokens have been returned",
            None,
        );
    }
    if state.tokens_consigned {
        return refuse_consignment(
            state,
            owner,
            amount,
            "Tokens to be sold have already been consigned. Your tokens have been returned",
            Some(state.currently_consigned),
        );
    }
    let needed = state.sell_amount - state.currently_consigned;
    if amount < needed {
        let total = state.currently_consigned + amount;
        state.currently_consigned = total;
        HandleResponse::logging(
            no_calls(),
            HandleAnswer::Consign {
                status: ResponseStatus::Failure,
                message: "You have not consigned the full amount to be sold.  You need to consign additional tokens".to_owned(),
                amount_consigned: Some(total),
                amount_needed: Some(needed - amount),
                amount_returned: None,
            },
        )
    } else {
        let excess = amount - needed;
        state.tokens_consigned = true;
        state.currently_consigned = state.sell_amount;
        let mut message = "Tokens to be sold have been consigned to the auction".to_owned();
        if excess > 0 {
            message.append(".  Excess tokens have been returned");
            HandleResponse::logging(
                one_call(state.sell_contract.transfer_msg(owner, excess)),
                HandleAnswer::Consign {
                    status: ResponseStatus::Success,
                    message,
                    amount_consigned: Some(state.sell_amount),
                    amount_needed: None,
                    amount_returned: Some(excess),
                },
            )
        } else {
            HandleResponse::logging(
                no_calls(),
                HandleAnswer::Consign {
                    status: ResponseStatus::Success,
                    message,
                    amount_consigned: Some(state.sell_amount),
                    amount_needed: None,
                    amount_returned: None,
                },
            )
        }
    }
}

/// What the host chain tells about the instruction at hand.
#[derive(Clone, Debug, PartialEq)]
pub struct Env {
    /// who sent the instruction
    pub sender: String,
    /// the block time, in seconds
    pub time: u64,
    /// the address of the auction itself
    pub contract_address: String,
    /// the code hash of the auction itself
    pub contract_code_hash: String,
}

/// What an `Env` stands for in specifications.
pub struct EnvView {
    pub sender: Seq<char>,
    pub time: u64,
    pub contract_address: Seq<char>,
    pub contract_code_hash: Seq<char>,
}

impl View for Env {
    type V = EnvView;

    open spec fn view(&self) -> EnvView {
        EnvView {
            sender: self.sender@,
            time: self.time,
            contract_address: self.contract_address@,
            contract_code_hash: self.contract_code_hash@,
        }
    }
}

/// The answer to a bid that is not accepted.
pub open spec fn bid_refused(message: Seq<char>, previous: Option<u128>, returned: Option<u128>)
    -> HandleAnswerView {
    HandleAnswerView::Bid {
        status: ResponseStatus::Failure,
        message,
        previous_bid: previous,
        amount_bid: None,
        amount_returned: returned,
    }
}

/// What a bid of `amount` by `bidder` at the time `time` leads to.
///
/// A bid on a closed auction, one below the minimum, and one that does not
/// exceed the bidder's standing bid are sent back whole; a bid of nothing is
/// refused with nothing to send back. Any other bid is entered in the
/// ledger. Where it takes the place of a standing bid, that bid is sent
/// back.
pub open spec fn bid_placed(
    state: StateView,
    bids: Map<Seq<char>, Bid>,
    bidder: Seq<char>,
    amount: u128,
    time: u64,
) -> Outcome {
    let refund = seq![transfer_call(state.bid_contract, bidder, amount)];
    if state.is_completed {
        Outcome {
            state,
            bids,
            response: logged(
                refund,
                bid_refused("Auction has ended. Bid tokens have been returned"@, None, Some(amount)),
            ),
        }
    } else if amount == 0 {
        Outcome {
            state,
            bids,
            response: logged(Seq::empty(), bid_refused("Bid must be greater than 0"@, None, None)),
        }
    } else if amount < state.minimum_bid {
        Outcome {
            state,
            bids,
            response: logged(
                refund,
                bid_refused(
                    "Bid was less than minimum allowed.  Bid tokens have been returned"@,
                    None,
                    Some(amount),
                ),
            ),
        }
    } else if bids.dom().contains(bidder) {
        let standing = bids[bidder].amount;
        if amount <= standing {
            Outcome {
                state,
                bids,
                response: logged(
                    refund,
                    bid_refused(
                        "New bid less than or equal to previous bid. Newly bid tokens have been returned"@,
                        Some(standing),
                        Some(amount),
                    ),
                ),
            }
        } else {
            Outcome {
                state,
                bids: bids.insert(bidder, Bid { amount, timestamp: time }),
                response: logged(
                    seq![transfer_call(state.bid_contract, bidder, standing)],
                    HandleAnswerView::Bid {
                        status: ResponseStatus::Success,
                        message: "Bid accepted"@ + ". Previously bid tokens have been returned"@,
                        previous_bid: None,
                        amount_bid: Some(amount),
                        amount_returned: Some(standing),
                    },
                ),
            }
        }
    } else {
        Outcome {
            state: StateView { bidders: state.bidders.push(bidder), ..state },
            bids: bids.insert(bidder, Bid { amount, timestamp: time }),
            response: logged(
                Seq::empty(),
                HandleAnswerView::Bid {
                    status: ResponseStatus::Success,
                    message: "Bid accepted"@,
                    previous_bid: None,
                    amount_bid: Some(amount),
                    amount_returned: None,
                },
            ),
        }
    }
}

fn refuse_bid(
    state: &State,
    bidder: &String,
    amount: u128,
    message: &str,
    previous: Option<u128>,
) -> (response: HandleResponse)
    ensures
        response@ == logged(
            seq![transfer_call(state@.bid_contract, bidder@, amount)],
            bid_refused(message@, previous, Some(amount)),
        ),
{
    HandleResponse::logging(
        one_call(state.bid_contract.transfer_msg(bidder, amount)),
        HandleAnswer::Bid {
            status: ResponseStatus::Failure,
            message: message.to_owned(),
            previous_bid: previous,
            amount_bid: None,
            amount_returned: Some(amount),
        },
    )
}

/// Takes bid tokens that `bidder` sent into escrow.
pub fn try_bid(
    bids: &mut BidStore,
    env: &Env,
    bidder: &String,
    amount: u128,
    state: &mut State,
) -> (response: HandleResponse)
    requires
        old(bids).wf(),
        valid(old(state)@, old(bids)@),
    ensures
        (Outcome { state: final(state)@, bids: final(bids)@, response: response@ }) == bid_placed(
            old(state)@,
            old(bids)@,
            bidder@,
            amount,
            env.time,
        ),
        final(bids).wf(),
        valid(final(state)@, final(bids)@),
{
    if state.is_completed {
        return refuse_bid(
            state,
            bidder,
            amount,
            "Auction has ended. Bid tokens have been returned",
            None,
        );
    }
    if amount == 0 {
        return HandleResponse::logging(
            no_calls(),
            HandleAnswer::Bid {
                status: ResponseStatus::Failure,
                message: "Bid must be greater than 0".to_owned(),
                previous_bid: None,
                amount_bid: None,
                amount_returned: None,
            },
        );
    }
    if amount < state.minimum_bid {
        return refuse_bid(
            state,
            bidder,
            amount,
            "Bid was less than minimum allowed.  Bid tokens have been returned",
            None,
        );
    }
    let new_bid = Bid { amount, timestamp: env.time };
    let mut message = "Bid accepted".to_owned();
    match may_load(bids, bidder) {
        Some(old_bid) => {
            if amount <= old_bid.amount {
                return refuse_bid(
                    state,
                    bidder,
                    amount,
                    "New bid less than or equal to previous bid. Newly bid tokens have been returned",
                    Some(old_bid.amount),
                );
            }
            save(bids, bidder, new_bid);
            message.append(". Previously bid tokens have been returned");
            assert(valid(state@, bids@)) by {
                assert(state@.bidders.contains(bidder@));
            }
            HandleResponse::logging(
                one_call(state.bid_contract.transfer_msg(bidder, old_bid.amount)),
                HandleAnswer::Bid {
                    status: ResponseStatus::Success,
                    message,
                    previous_bid: None,
                    amount_bid: Some(amount),
                    amount_returned: Some(old_bid.amount),
                },
            )
        },
        None => {
            state.bidders.push(bidder.clone());
            save(bids, bidder, new_bid);
            proof {
                let before = old(state)@.bidders;
                let after = state@.bidders;
                assert(after =~= before.push(bidder@));
                assert(!before.contains(bidder@));
                assert forall|i: int, j: int|
                    0 <= i < after.len() && 0 <= j < after.len() && i != j implies after[i]
                    != after[j] by {
                    if i < before.len() && j < before.len() {
                        assert(before[i] != before[j]);
                    } else if i < before.len() {
                        assert(before.contains(before[i]));
                    } else {
                        assert(before.contains(before[j]));
                    }
                }
                assert forall|k: Seq<char>|
                    #![trigger after.contains(k)]
                    #![trigger bids@.dom().contains(k)]
                    after.contains(k) <==> bids@.dom().contains(k) by {
                    if after.contains(k) {
                        let i = choose|i: int| 0 <= i < after.len() && after[i] == k;
                        if i < before.len() {
                            assert(before.contains(before[i]));
                        }
                    }
                    if bids@.dom().contains(k) {
                        if k == bidder@ {
                            assert(after[before.len() as int] == k);
                        } else {
                            assert(before.contains(k));
                            let i = choose|i: int| 0 <= i < before.len() && before[i] == k;
                            assert(after[i] == k);
                        }
                    }
                }
            }
            HandleResponse::logging(
                no_calls(),
                HandleAnswer::Bid {
                    status: ResponseStatus::Success,
                    message,
                    previous_bid: None,
                    amount_bid: Some(amount),
                    amount_returned: None,
                },
            )
        },
    }
}

/// The answer to someone who has no bid in escrow.
pub open spec fn no_active_bid(bidder: Seq<char>) -> Seq<char> {
    "No active bid for address: "@ + bidder
}

fn no_active_bid_message(bidder: &String) -> (message: String)
    ensures
        message@ == no_active_bid(bidder@),
{
    "No active bid for address: ".to_owned().concat(bidder.as_str())
}

/// What `bidder`'s taking back their bid leads to: the bid leaves the list
/// of bidders and the ledger and is sent back. Who has no bid is told so.
pub open spec fn bid_retracted(state: StateView, bids: Map<Seq<char>, Bid>, bidder: Seq<char>)
    -> Outcome {
    if bids.dom().contains(bidder) {
        Outcome {
            state: StateView {
                bidders: state.bidders.remove(state.bidders.index_of(bidder)),
                ..state
            },
            bids: bids.remove(bidder),
            response: told(
                seq![transfer_call(state.bid_contract, bidder, bids[bidder].amount)],
                HandleAnswerView::RetractBid {
                    status: ResponseStatus::Success,
                    message: "Bid retracted.  Tokens have been returned"@,
                    amount_returned: Some(bids[bidder].amount),
                },
            ),
        }
    } else {
        Outcome {
            state,
            bids,
            response: told(
                Seq::empty(),
                HandleAnswerView::RetractBid {
                    status: ResponseStatus::Failure,
                    message: no_active_bid(bidder),
                    amount_returned: None,
                },
            ),
        }
    }
}

/// Taking out the one place where `key` stands leaves every other entry,
/// once each.
pub proof fn lemma_remove_listed(list: Seq<Seq<char>>, at: int)
    requires
        list.no_duplicates(),
        0 <= at < list.len(),
    ensures
        list.remove(at).no_duplicates(),
        list.index_of(list[at]) == at,
        forall|k: Seq<char>| #[trigger]
            list.remove(at).contains(k) <==> list.contains(k) && k != list[at],
{
    let rest = list.remove(at);
    assert forall|i: int| 0 <= i < rest.len() implies #[trigger] rest[i] == list[if i < at {
        i
    } else {
        i + 1
    }] by {}
    assert forall|k: Seq<char>| #[trigger] rest.contains(k) <==> list.contains(k) && k
        != list[at] by {
        if rest.contains(k) {
            let i = choose|i: int| 0 <= i < rest.len() && rest[i] == k;
            let j = if i < at { i } else { i + 1 };
            assert(list[j] == k);
        }
        if list.contains(k) && k != list[at] {
            let j = choose|j: int| 0 <= j < list.len() && list[j] == k;
            let i = if j < at { j } else { j - 1 };
            assert(rest[i] == k);
        }
    }
    assert(list.contains(list[at]));
}

/// Gives `bidder` their bid back.
pub fn try_retract(state: &mut State, bids: &mut BidStore, bidder: &String) -> (response:
    HandleResponse)
    requires
        old(bids).wf(),
        valid(old(state)@, old(bids)@),
    ensures
        (Outcome { state: final(state)@, bids: final(bids)@, response: response@ })
            == bid_retracted(old(state)@, old(bids)@, bidder@),
        final(bids).wf(),
        valid(final(state)@, final(bids)@),
{
    match may_load(bids, bidder) {
        Some(old_bid) => {
            remove(bids, bidder);
            if let Some(at) = state.bidder_index(bidder) {
                let _ = state.bidders.remove(at);
                proof {
                    let before = old(state)@.bidders;
                    lemma_remove_listed(before, at as int);
                    assert(state@.bidders =~= before.remove(at as int));
                }
            }
            HandleResponse::telling(
                one_call(state.bid_contract.transfer_msg(bidder, old_bid.amount)),
                HandleAnswer::RetractBid {
                    status: ResponseStatus::Success,
                    message: "Bid retracted.  Tokens have been returned".to_owned(),
                    amount_returned: Some(old_bid.amount),
                },
            )
        },
        None => HandleResponse::telling(
            no_calls(),
            HandleAnswer::RetractBid {
                status: ResponseStatus::Failure,
                message: no_active_bid_message(bidder),
                amount_returned: None,
            },
        ),
    }
}

/// The answer to a bidder who asks for a bid whose time of placing is
/// written `placed`.
pub open spec fn bid_shown(bid: Bid, placed: Seq<char>) -> HandleResponseView {
    told(
        Seq::empty(),
        HandleAnswerView::Bid {
            status: ResponseStatus::Success,
            message: "Bid placed "@ + placed + " UTC"@,
            previous_bid: None,
            amount_bid: Some(bid.amount),
            amount_returned: None,
        },
    )
}

/// Answers a bidder with their bid and the written time of its placing.
pub fn show_bid(bid: Bid, placed: &String) -> (response: HandleResponse)
    ensures
        response@ == bid_shown(bid, placed@),
{
    let mut message = "Bid placed ".to_owned();
    message.append(placed.as_str());
    message.append(" UTC");
    HandleResponse::telling(
        no_calls(),
        HandleAnswer::Bid {
            status: ResponseStatus::Success,
            message,
            previous_bid: None,
            amount_bid: Some(bid.amount),
            amount_returned: None,
        },
    )
}

/// What `bidder`'s asking for their bid leads to: the amount and the time
/// of placing, where there is a bid and its time can be written as a date.
pub open spec fn bid_viewed(bids: Map<Seq<char>, Bid>, bidder: Seq<char>) -> Result<
    HandleResponseView,
    ContractError,
> {
    if !bids.dom().contains(bidder) {
        Ok(
            told(
                Seq::empty(),
                HandleAnswerView::Bid {
                    status: ResponseStatus::Failure,
                    message: no_active_bid(bidder),
                    previous_bid: None,
                    amount_bid: None,
                    amount_returned: None,
                },
            ),
        )
    } else if bids[bidder].timestamp <= MAX_TIMESTAMP {
        Ok(bid_shown(bids[bidder], utc_date_time(bids[bidder].timestamp as i64)))
    } else {
        Err(ContractError::TimestampOutOfRange)
    }
}

/// The view of what an operation that may fail hands back.
pub open spec fn result_view(result: Result<HandleResponse, ContractError>) -> Result<
    HandleResponseView,
    ContractError,
> {
    match result {
        Ok(response) => Ok(response@),
        Err(e) => Err(e),
    }
}

/// Tells `bidder` their bid.
pub fn try_view_bid(bids: &BidStore, bidder: &String) -> (result: Result<
    HandleResponse,
    ContractError,
>)
    requires
        bids.wf(),
    ensures
        result_view(result) == bid_viewed(bids@, bidder@),
{
    match may_load(bids, bidder) {
        Some(found_bid) => match render_timestamp(found_bid.timestamp) {
            Some(placed) => Ok(show_bid(found_bid, &placed)),
            None => Err(ContractError::TimestampOutOfRange),
        },
        None => Ok(
            HandleResponse::telling(
                no_calls(),
                HandleAnswer::Bid {
                    status: ResponseStatus::Failure,
                    message: no_active_bid_message(bidder),
                    previous_bid: None,
                    amount_bid: None,
                    amount_returned: None,
                },
            ),
        ),
    }
}

/// The bids of the bidders listed, in the order of the list.
pub open spec fn listed_bids(bidders: Seq<Seq<char>>, bids: Map<Seq<char>, Bid>) -> Seq<
    OwnedBidView,
> {
    Seq::new(bidders.len(), |i: int| OwnedBidView { bidder: bidders[i], bid: bids[bidders[i]] })
}

/// The calls that send each bid of the list back to its bidder, in the order
/// of the list.
pub open spec fn refunds(token: ContractInfoView, list: Seq<OwnedBidView>) -> Seq<CosmosMsgView> {
    Seq::new(list.len(), |i: int| transfer_call(token, list[i].bidder, list[i].bid.amount))
}

/// The answer to an instruction to close that is not followed.
pub open spec fn close_refused(message: Seq<char>) -> HandleResponseView {
    told(
        Seq::empty(),
        HandleAnswerView::CloseAuction {
            status: ResponseStatus::Failure,
            message,
            winning_bid: None,
            amount_returned: None,
        },
    )
}

/// Why a closing auction returns the consignment.
pub open spec fn return_cause(state: StateView) -> Seq<char> {
    if !state.tokens_consigned {
        " because you did not consign the full sale amount"@
    } else if state.bidders.len() == 0 {
        " because there were no active bids"@
    } else {
        Seq::empty()
    }
}

/// What settling leads to: everything in escrow goes where it belongs, and
/// the auction is closed.
///
/// While the auction is open and the consignment complete, the bid that
/// ranks highest wins: its amount goes to the seller and the tokens for sale
/// go to its bidder, and the other bids go back in rank order, the lowest
/// first. Otherwise all bids go back, in the order of the list of bidders.
/// Sale tokens that are then still in escrow go back to the seller; they
/// are reported unless the settling is a sweep.
pub open spec fn settled(state: StateView, bids: Map<Seq<char>, Bid>, sweep: bool) -> Outcome {
    let list = listed_bids(state.bidders, bids);
    let selling = state.tokens_consigned && !state.is_completed && list.len() > 0;
    let ranked = rank_sorted(list);
    let swap = if selling {
        seq![
            transfer_call(state.bid_contract, state.seller, ranked.last().bid.amount),
            transfer_call(state.sell_contract, ranked.last().bidder, state.sell_amount),
        ]
    } else {
        Seq::empty()
    };
    let back = if selling {
        refunds(state.bid_contract, ranked.drop_last())
    } else {
        refunds(state.bid_contract, list)
    };
    let left = if selling {
        0
    } else {
        state.currently_consigned
    };
    let rest = if left > 0 {
        seq![transfer_call(state.sell_contract, state.seller, left)]
    } else {
        Seq::empty()
    };
    let returned = if left > 0 && !sweep {
        Some(left)
    } else {
        None
    };
    let message = if selling {
        "Sale finalized.  You have been sent the winning bid tokens"@
    } else if returned.is_some() {
        "Auction closed.  You have been returned the consigned tokens"@ + return_cause(state)
    } else if sweep {
        "Outstanding funds have been returned"@
    } else {
        "Auction has been closed"@
    };
    Outcome {
        state: StateView {
            currently_consigned: 0,
            bidders: Seq::empty(),
            is_completed: true,
            ..state
        },
        bids: Map::empty(),
        response: told(
            swap + back + rest,
            HandleAnswerView::CloseAuction {
                status: ResponseStatus::Success,
                message,
                winning_bid: if selling {
                    Some(ranked.last().bid.amount)
                } else {
                    None
                },
                amount_returned: returned,
            },
        ),
    }
}

/// What an instruction to close leads to, be it the seller's closing of the
/// auction or anyone's sweep of a closed one (`return_all`).
///
/// A sweep is refused while the auction is open; a closing is refused to
/// anyone but the seller, and, if the seller wants it so, while nobody has
/// bid on an open auction. What is not refused is settled.
pub open spec fn closed(
    state: StateView,
    bids: Map<Seq<char>, Bid>,
    caller: Seq<char>,
    only_if_bids: bool,
    return_all: bool,
) -> Outcome {
    if return_all && !state.is_completed {
        Outcome {
            state,
            bids,
            response: close_refused(
                "return_all can only be executed after the auction has ended"@,
            ),
        }
    } else if !return_all && caller != state.seller {
        Outcome {
            state,
            bids,
            response: close_refused("Only auction creator can finalize the sale"@),
        }
    } else if !state.is_completed && only_if_bids && state.bidders.len() == 0 {
        Outcome {
            state,
            bids,
            response: close_refused("Did not close because there are no active bids"@),
        }
    } else {
        settled(state, bids, return_all)
    }
}

fn refuse_close(message: &str) -> (response: HandleResponse)
    ensures
        response@ == close_refused(message@),
{
    HandleResponse::telling(
        no_calls(),
        HandleAnswer::CloseAuction {
            status: ResponseStatus::Failure,
            message: message.to_owned(),
            winning_bid: None,
            amount_returned: None,
        },
    )
}

fn load_bids(state: &State, bids: &BidStore) -> (list: Vec<OwnedBid>)
    requires
        bids.wf(),
        valid(state@, bids@),
    ensures
        owned_views(list@) == listed_bids(state@.bidders, bids@),
{
    let mut list: Vec<OwnedBid> = Vec::new();
    let mut i: usize = 0;
    while i < state.bidders.len()
        invariant
            i <= state.bidders.len(),
            bids.wf(),
            valid(state@, bids@),
            list.len() == i,
            forall|j: int|
                0 <= j < i ==> (#[trigger] list[j])@ == listed_bids(state@.bidders, bids@)[j],
        decreases state.bidders.len() - i,
    {
        assert(state@.bidders.contains(state@.bidders[i as int]));
        if let Some(found_bid) = may_load(bids, &state.bidders[i]) {
            list.push(OwnedBid { bidder: state.bidders[i].clone(), bid: found_bid });
        }
        i = i + 1;
    }
    assert(owned_views(list@) =~= listed_bids(state@.bidders, bids@));
    list
}

fn add_refunds(calls: &mut Vec<CosmosMsg>, token: &ContractInfo, list: &Vec<OwnedBid>)
    ensures
        calls_view(final(calls)@) == calls_view(old(calls)@) + refunds(token@, owned_views(list@)),
{
    let mut i: usize = 0;
    assert(calls_view(calls@) =~= calls_view(old(calls)@) + refunds(
        token@,
        owned_views(list@),
    ).take(0));
    while i < list.len()
        invariant
            i <= list.len(),
            calls_view(calls@) == calls_view(old(calls)@) + refunds(
                token@,
                owned_views(list@),
            ).take(i as int),
        decreases list.len() - i,
    {
        let ghost sent = calls_view(calls@);
        add_call(calls, token.transfer_msg(&list[i].bidder, list[i].bid.amount));
        proof {
            let all = refunds(token@, owned_views(list@));
            assert(all.take(i + 1) =~= all.take(i as int).push(all[i as int]));
            assert(calls_view(calls@) =~= calls_view(old(calls)@) + all.take(i + 1));
        }
        i = i + 1;
    }
    proof {
        let all = refunds(token@, owned_views(list@));
        assert(all.take(list.len() as int) =~= all);
    }
}

fn drop_all_bids(state: &mut State, bids: &mut BidStore)
    requires
        old(bids).wf(),
        forall|k: Seq<char>| #[trigger]
            old(bids)@.dom().contains(k) ==> old(state)@.bidders.contains(k),
    ensures
        final(bids).wf(),
        final(bids)@ == Map::<Seq<char>, Bid>::empty(),
        final(state)@ == (StateView { bidders: Seq::empty(), ..old(state)@ }),
{
    let ghost listed = state@.bidders;
    let mut i: usize = 0;
    while i < state.bidders.len()
        invariant
            i <= state.bidders.len(),
            bids.wf(),
            *state == *old(state),
            listed == state@.bidders,
            forall|k: Seq<char>| #[trigger]
                bids@.dom().contains(k) <==> old(bids)@.dom().contains(k) && !listed.take(
                    i as int,
                ).contains(k),
        decreases state.bidders.len() - i,
    {
        let ghost before = bids@;
        remove(bids, &state.bidders[i]);
        proof {
            let key = listed[i as int];
            assert(listed.take(i + 1) =~= listed.take(i as int).push(key));
            assert forall|k: Seq<char>| #[trigger]
                bids@.dom().contains(k) <==> old(bids)@.dom().contains(k) && !listed.take(
                    i + 1,
                ).contains(k) by {
                let shorter = listed.take(i as int);
                let longer = listed.take(i + 1);
                if longer.contains(k) && k != key {
                    let w = choose|w: int| 0 <= w < longer.len() && longer[w] == k;
                    assert(shorter[w] == k);
                }
                if shorter.contains(k) {
                    let w = choose|w: int| 0 <= w < shorter.len() && shorter[w] == k;
                    assert(longer[w] == k);
                }
                if k == key {
                    assert(longer[i as int] == k);
                }
            }
        }
        i = i + 1;
    }
    state.bidders.clear();
    proof {
        assert(listed.take(listed.len() as int) =~= listed);
        assert(bids@ =~= Map::<Seq<char>, Bid>::empty());
        assert(state@.bidders =~= Seq::<Seq<char>>::empty());
    }
}

/// Closes the auction and sends everything in escrow where it belongs; as
/// `return_all`, sweeps what a closed auction still holds.
pub fn try_finalize(
    state: &mut State,
    bids: &mut BidStore,
    env: &Env,
    only_if_bids: bool,
    return_all: bool,
) -> (response: HandleResponse)
    requires
        old(bids).wf(),
        valid(old(state)@, old(bids)@),
    ensures
        (Outcome { state: final(state)@, bids: final(bids)@, response: response@ }) == closed(
            old(state)@,
            old(bids)@,
            env.sender@,
            only_if_bids,
            return_all,
        ),
        final(bids).wf(),
        valid(final(state)@, final(bids)@),
{
    if return_all && !state.is_completed {
        return refuse_close("return_all can only be executed after the auction has ended");
    }
    if !return_all && !(env.sender == state.seller) {
        return refuse_close("Only auction creator can finalize the sale");
    }
    let no_bids = state.bidders.len() == 0;
    if !state.is_completed && only_if_bids && no_bids {
        return refuse_close("Did not close because there are no active bids");
    }
    let mut cos_msg = no_calls();
    let mut winning_amount: Option<u128> = None;
    let mut amount_returned: Option<u128> = None;
    let mut bid_list = load_bids(state, bids);
    let ghost list = listed_bids(state@.bidders, bids@);
    if state.tokens_consigned && !state.is_completed {
        proof {
            crate::order::lemma_rank_sorted_permutes(list);
        }
        bid_list = sort_by_rank(&bid_list);
        if let Some(winning_bid) = bid_list.pop() {
            assert(winning_bid@ == rank_sorted(list).last());
            assert(owned_views(bid_list@) =~= rank_sorted(list).drop_last());
            add_call(&mut cos_msg, state.bid_contract.transfer_msg(&state.seller, winning_bid.bid.amount));
            add_call(
                &mut cos_msg,
                state.sell_contract.transfer_msg(&winning_bid.bidder, state.sell_amount),
            );
            state.currently_consigned = 0;
            winning_amount = Some(winning_bid.bid.amount);
        } else {
            assert(owned_views(bid_list@) =~= list);
        }
    }
    add_refunds(&mut cos_msg, &state.bid_contract, &bid_list);
    drop_all_bids(state, bids);
    if state.currently_consigned > 0 {
        add_call(
            &mut cos_msg,
            state.sell_contract.transfer_msg(&state.seller, state.currently_consigned),
        );
        if !return_all {
            amount_returned = Some(state.currently_consigned);
        }
        state.currently_consigned = 0;
    }
    state.is_completed = true;
    let message = if winning_amount.is_some() {
        "Sale finalized.  You have been sent the winning bid tokens".to_owned()
    } else if amount_returned.is_some() {
        let cause = if !state.tokens_consigned {
            " because you did not consign the full sale amount"
        } else if no_bids {
            " because there were no active bids"
        } else {
            ""
        };
        proof {
            reveal_strlit("");
            assert(""@ =~= Seq::<char>::empty());
        }
        "Auction closed.  You have been returned the consigned tokens".to_owned().concat(cause)
    } else if return_all {
        "Outstanding funds have been returned".to_owned()
    } else {
        "Auction has been closed".to_owned()
    };
    let response = HandleResponse::telling(
        cos_msg,
        HandleAnswer::CloseAuction {
            status: ResponseStatus::Success,
            message,
            winning_bid: winning_amount,
            amount_returned,
        },
    );
    proof {
        let want = settled(old(state)@, old(bids)@, return_all);
        assert(response@.messages =~= want.response.messages);
        assert(state@.bidders =~= Seq::<Seq<char>>::empty());
    }
    response
}

/// The answer to tokens that come from a contract the auction does not
/// deal in.
pub open spec fn not_a_token(sender: Seq<char>) -> HandleResponseView {
    logged(
        Seq::empty(),
        HandleAnswerView::Status {
            status: ResponseStatus::Failure,
            message: "Address: "@ + sender + " is not a token in this auction"@,
        },
    )
}

/// What the report of tokens received leads to: a consignment where the
/// sale token reports it, a bid where the bid token does. A report from
/// anyone else changes nothing.
pub open spec fn received(
    state: StateView,
    bids: Map<Seq<char>, Bid>,
    env: EnvView,
    from: Seq<char>,
    amount: u128,
) -> Outcome {
    if env.sender == state.sell_contract.address {
        consigned(state, bids, from, amount)
    } else if env.sender == state.bid_contract.address {
        bid_placed(state, bids, from, amount, env.time)
    } else {
        Outcome { state, bids, response: not_a_token(env.sender) }
    }
}

/// Takes the report that `from` sent `amount` tokens into escrow.
pub fn try_receive(
    state: &mut State,
    bids: &mut BidStore,
    env: &Env,
    from: &String,
    amount: u128,
) -> (response: HandleResponse)
    requires
        old(bids).wf(),
        valid(old(state)@, old(bids)@),
    ensures
        (Outcome { state: final(state)@, bids: final(bids)@, response: response@ }) == received(
            old(state)@,
            old(bids)@,
            env@,
            from@,
            amount,
        ),
        final(bids).wf(),
        valid(final(state)@, final(bids)@),
{
    if env.sender == state.sell_contract.address {
        try_consign(bids, from, amount, state)
    } else if env.sender == state.bid_contract.address {
        try_bid(bids, env, from, amount, state)
    } else {
        let mut message = "Address: ".to_owned();
        message.append(env.sender.as_str());
        message.append(" is not a token in this auction");
        HandleResponse::logging(
            no_calls(),
            HandleAnswer::Status { status: ResponseStatus::Failure, message },
        )
    }
}

/// The state and the ledger that an instruction leaves, and the response to
/// it, or the reason why there is none.
pub struct Handled {
    pub state: StateView,
    pub bids: Map<Seq<char>, Bid>,
    pub result: Result<HandleResponseView, ContractError>,
}

/// An outcome as what an instruction leaves.
pub open spec fn done(outcome: Outcome) -> Handled {
    Handled { state: outcome.state, bids: outcome.bids, result: Ok(outcome.response) }
}

/// What an instruction leads to.
pub open spec fn handled(
    state: StateView,
    bids: Map<Seq<char>, Bid>,
    env: EnvView,
    msg: HandleMsgView,
) -> Handled {
    match msg {
        HandleMsgView::RetractBid {  } => done(bid_retracted(state, bids, env.sender)),
        HandleMsgView::Finalize { only_if_bids } => done(
            closed(state, bids, env.sender, only_if_bids, false),
        ),
        HandleMsgView::ReturnAll {  } => done(closed(state, bids, env.sender, false, true)),
        HandleMsgView::Receive { from, amount, .. } => done(
            received(state, bids, env, from, amount),
        ),
        HandleMsgView::ViewBid {  } => Handled {
            state,
            bids,
            result: bid_viewed(bids, env.sender),
        },
    }
}

/// Carries out an instruction.
///
/// The only instruction that can go without a response is `ViewBid`, where
/// the time of the bid cannot be written as a date.
pub fn handle(state: &mut State, bids: &mut BidStore, env: Env, msg: HandleMsg) -> (result: Result<
    HandleResponse,
    ContractError,
>)
    requires
        old(bids).wf(),
        valid(old(state)@, old(bids)@),
    ensures
        (Handled { state: final(state)@, bids: final(bids)@, result: result_view(result) })
            == handled(old(state)@, old(bids)@, env@, msg@),
        final(bids).wf(),
        valid(final(state)@, final(bids)@),
{
    match msg {
        HandleMsg::RetractBid {  } => Ok(try_retract(state, bids, &env.sender)),
        HandleMsg::Finalize { only_if_bids } => Ok(
            try_finalize(state, bids, &env, only_if_bids, false),
        ),
        HandleMsg::ReturnAll {  } => Ok(try_finalize(state, bids, &env, false, true)),
        HandleMsg::Receive { from, amount, .. } => Ok(
            try_receive(state, bids, &env, &from, amount),
        ),
        HandleMsg::ViewBid {  } => try_view_bid(bids, &env.sender),
    }
}

/// A new auction: its first state, and the calls that make it known to the
/// two tokens.
#[derive(Clone, Debug, PartialEq)]
pub struct InitResponse {
    pub state: State,
    pub messages: Vec<CosmosMsg>,
}

/// What an `InitResponse` stands for in specifications.
pub struct InitResponseView {
    pub state: StateView,
    pub messages: Seq<CosmosMsgView>,
}

impl View for InitResponse {
    type V = InitResponseView;

    open spec fn view(&self) -> InitResponseView {
        InitResponseView { state: self.state@, messages: calls_view(self.messages@) }
    }
}

/// What the creation of an auction leads to.
///
/// An auction of nothing, or of a token for itself, is not created. Any
/// other auction starts open, with nothing in escrow and no bidders, its
/// creator being the seller, and registers with the sale token and then
/// with the bid token as a receiver of tokens.
pub open spec fn created(env: EnvView, msg: InitMsgView) -> Result<InitResponseView, ContractError> {
    match msg {
        InitMsgView::CreateAuction {
            sell_contract,
            bid_contract,
            sell_amount,
            minimum_bid,
            description,
        } => {
            if sell_amount == 0 {
                Err(ContractError::ZeroSellAmount)
            } else if sell_contract.address == bid_contract.address {
                Err(ContractError::SameToken)
            } else {
                Ok(
                    InitResponseView {
                        state: StateView {
                            auction_addr: env.contract_address,
                            seller: env.sender,
                            sell_contract,
                            bid_contract,
                            sell_amount,
                            minimum_bid,
                            currently_consigned: 0,
                            bidders: Seq::empty(),
                            is_completed: false,
                            tokens_consigned: false,
                            description,
                        },
                        messages: seq![
                            register_call(sell_contract, env.contract_code_hash),
                            register_call(bid_contract, env.contract_code_hash),
                        ],
                    },
                )
            }
        },
    }
}

/// The view of what a creation hands back.
pub open spec fn init_view(result: Result<InitResponse, ContractError>) -> Result<
    InitResponseView,
    ContractError,
> {
    match result {
        Ok(response) => Ok(response@),
        Err(e) => Err(e),
    }
}

/// Creates an auction. Its ledger is the empty one.
pub fn init(env: Env, msg: InitMsg) -> (result: Result<InitResponse, ContractError>)
    ensures
        init_view(result) == created(env@, msg@),
        result matches Ok(response) ==> valid(response.state@, Map::empty()),
{
    match msg {
        InitMsg::CreateAuction {
            sell_contract,
            bid_contract,
            sell_amount,
            minimum_bid,
            description,
        } => {
            if sell_amount == 0 {
                return Err(ContractError::ZeroSellAmount);
            }
            if sell_contract.address == bid_contract.address {
                return Err(ContractError::SameToken);
            }
            let mut messages = one_call(
                sell_contract.register_receive_msg(&env.contract_code_hash),
            );
            add_call(&mut messages, bid_contract.register_receive_msg(&env.contract_code_hash));
            let state = State {
                auction_addr: env.contract_address,
                seller: env.sender,
                sell_contract,
                bid_contract,
                sell_amount,
                minimum_bid,
                currently_consigned: 0,
                bidders: Vec::new(),
                is_completed: false,
                tokens_consigned: false,
                description,
            };
            let response = InitResponse { state, messages };
            proof {
                assert(response@.state.bidders =~= Seq::<Seq<char>>::empty());
                assert(response@.messages =~= seq![
                    register_call(sell_contract@, env.contract_code_hash@),
                    register_call(bid_contract@, env.contract_code_hash@),
                ]);
            }
            Ok(response)
        },
    }
}

/// How an auction describes where it stands.
pub open spec fn status_text(state: StateView) -> Seq<char> {
    if state.is_completed {
        if state.bidders.len() > 0 || state.currently_consigned > 0 {
            "Closed"@
                + ", but found outstanding balances.  Please run either retract_bid to retrieve your non-winning bid, or return_all to return all outstanding bids/consignment."@
        } else {
            "Closed"@
        }
    } else if !state.tokens_consigned {
        "Accepting bids: Token(s) to be sold have"@ + " NOT"@ + " been consigned to the auction"@
    } else {
        "Accepting bids: Token(s) to be sold have"@ + " been consigned to the auction"@
    }
}

/// What an auction tells about itself, given what its two tokens tell about
/// themselves.
pub open spec fn info(state: StateView, sell_token_info: TokenInfoView, bid_token_info: TokenInfoView)
    -> QueryAnswerView {
    QueryAnswerView::AuctionInfo {
        sell_token: TokenView {
            contract_address: state.sell_contract.address,
            token_info: sell_token_info,
        },
        bid_token: TokenView {
            contract_address: state.bid_contract.address,
            token_info: bid_token_info,
        },
        sell_amount: state.sell_amount,
        minimum_bid: state.minimum_bid,
        description: state.description,
        auction_address: state.auction_addr,
        status: status_text(state),
    }
}

/// Describes the auction.
pub fn try_query_info(state: &State, sell_token_info: TokenInfo, bid_token_info: TokenInfo) -> (answer:
    QueryAnswer)
    ensures
        answer@ == info(state@, sell_token_info@, bid_token_info@),
{
    proof {
        reveal_strlit("");
        assert("Closed"@ + ""@ =~= "Closed"@);
        assert("Accepting bids: Token(s) to be sold have"@ + ""@
            =~= "Accepting bids: Token(s) to be sold have"@);
    }
    let status = if state.is_completed {
        let locked = if state.bidders.len() > 0 || state.currently_consigned > 0 {
            ", but found outstanding balances.  Please run either retract_bid to retrieve your non-winning bid, or return_all to return all outstanding bids/consignment."
        } else {
            ""
        };
        "Closed".to_owned().concat(locked)
    } else {
        let consign = if !state.tokens_consigned {
            " NOT"
        } else {
            ""
        };
        "Accepting bids: Token(s) to be sold have".to_owned().concat(consign).concat(
            " been consigned to the auction",
        )
    };
    let description = match &state.description {
        Some(text) => Some(text.clone()),
        None => None,
    };
    QueryAnswer::AuctionInfo {
        sell_token: Token {
            contract_address: state.sell_contract.address.clone(),
            token_info: sell_token_info,
        },
        bid_token: Token {
            contract_address: state.bid_contract.address.clone(),
            token_info: bid_token_info,
        },
        sell_amount: state.sell_amount,
        minimum_bid: state.minimum_bid,
        description,
        auction_address: state.auction_addr.clone(),
        status,
    }
}

/// Answers a question about the auction, given the answers of the sale
/// token and of the bid token to the question what they are.
pub fn query(state: &State, msg: QueryMsg, sell_token: TokenQuery, bid_token: TokenQuery) -> (answer:
    QueryAnswer)
    ensures
        answer@ == info(state@, sell_token.token_info@, bid_token.token_info@),
{
    match msg {
        QueryMsg::AuctionInfo {  } => try_query_info(
            state,
            sell_token.token_info,
            bid_token.token_info,
        ),
    }
}

} // verus!
