use escrow_auction::contract::{
    handle, init, try_bid, try_consign, try_finalize, try_receive, try_retract, Env,
    HandleResponse,
};
use escrow_auction::msg::{
    ContractInfo, CosmosMsg, HandleAnswer, HandleMsg, InitMsg, ResponseStatus, TokenCall,
    TransferMsg,
};
use escrow_auction::state::{is_valid, may_load, Bid, BidStore, State};

fn sale_token() -> ContractInfo {
    ContractInfo { code_hash: "salehash".to_string(), address: "sale-token".to_string() }
}

fn bid_token() -> ContractInfo {
    ContractInfo { code_hash: "bidhash".to_string(), address: "bid-token".to_string() }
}

fn env(sender: &str, time: u64) -> Env {
    Env {
        sender: sender.to_string(),
        time,
        contract_address: "auction".to_string(),
        contract_code_hash: "auctionhash".to_string(),
    }
}

fn auction(sell_amount: u128, minimum_bid: u128) -> (State, BidStore) {
    let created = init(
        env("seller", 0),
        InitMsg::CreateAuction {
            sell_contract: sale_token(),
            bid_contract: bid_token(),
            sell_amount,
            minimum_bid,
            description: None,
        },
    )
    .unwrap();
    (created.state, BidStore::new())
}

fn transfer(token: &ContractInfo, recipient: &str, amount: u128, blanks: usize) -> CosmosMsg {
    CosmosMsg {
        msg: TokenCall::Transfer(TransferMsg {
            recipient: recipient.to_string(),
            amount,
            padding: Some(" ".repeat(blanks)),
        }),
        callback_code_hash: token.code_hash.clone(),
        contract_addr: token.address.clone(),
    }
}

fn sent_by(response: &HandleResponse, token: &ContractInfo) -> u128 {
    let mut sum = 0u128;
    for call in response.messages.iter() {
        if let TokenCall::Transfer(t) = &call.msg {
            if call.contract_addr == token.address {
                sum += t.amount;
            }
        }
    }
    sum
}

fn held(state: &State, bids: &BidStore) -> u128 {
    let mut sum = 0u128;
    for bidder in state.bidders.iter() {
        sum += may_load(bids, bidder).unwrap().amount;
    }
    sum
}

#[test]
fn consignment_in_two_parts_completes() {
    let (mut state, bids) = auction(100, 10);
    let seller = "seller".to_string();
    let first = try_consign(&bids, &seller, 60, &mut state);
    assert!(first.messages.is_empty());
    assert_eq!(first.data, None);
    assert_eq!(
        first.log,
        Some(HandleAnswer::Consign {
            status: ResponseStatus::Failure,
            message: "You have not consigned the full amount to be sold.  You need to consign additional tokens".to_string(),
            amount_consigned: Some(60),
            amount_needed: Some(40),
            amount_returned: None,
        })
    );
    assert!(!state.tokens_consigned);
    assert_eq!(state.currently_consigned, 60);

    let second = try_consign(&bids, &seller, 40, &mut state);
    assert!(second.messages.is_empty());
    assert_eq!(
        second.log,
        Some(HandleAnswer::Consign {
            status: ResponseStatus::Success,
            message: "Tokens to be sold have been consigned to the auction".to_string(),
            amount_consigned: Some(100),
            amount_needed: None,
            amount_returned: None,
        })
    );
    assert!(state.tokens_consigned);
    assert_eq!(state.currently_consigned, 100);
    assert!(is_valid(&state, &bids));
}

#[test]
fn equal_bid_of_the_same_bidder_is_sent_back() {
    let (mut state, mut bids) = auction(100, 10);
    let y = "y".to_string();
    let first = try_bid(&mut bids, &env("bid-token", 1), &y, 20, &mut state);
    assert_eq!(
        first.log,
        Some(HandleAnswer::Bid {
            status: ResponseStatus::Success,
            message: "Bid accepted".to_string(),
            previous_bid: None,
            amount_bid: Some(20),
            amount_returned: None,
        })
    );
    let before = state.clone();
    let again = try_bid(&mut bids, &env("bid-token", 2), &y, 20, &mut state);
    assert_eq!(again.messages, vec![transfer(&bid_token(), "y", 20, 38)]);
    assert_eq!(
        again.log,
        Some(HandleAnswer::Bid {
            status: ResponseStatus::Failure,
            message: "New bid less than or equal to previous bid. Newly bid tokens have been returned".to_string(),
            previous_bid: Some(20),
            amount_bid: None,
            amount_returned: Some(20),
        })
    );
    assert_eq!(state, before);
    assert_eq!(may_load(&bids, &y), Some(Bid { amount: 20, timestamp: 1 }));
}

#[test]
fn later_bid_of_equal_amount_loses_to_the_earlier() {
    let (mut state, mut bids) = auction(100, 10);
    let seller = "seller".to_string();
    try_consign(&bids, &seller, 100, &mut state);
    try_bid(&mut bids, &env("bid-token", 1), &"x".to_string(), 20, &mut state);
    try_bid(&mut bids, &env("bid-token", 2), &"y".to_string(), 20, &mut state);
    assert_eq!(state.bidders, vec!["x".to_string(), "y".to_string()]);
    let closing = try_finalize(&mut state, &mut bids, &env("seller", 3), false, false);
    assert_eq!(
        closing.messages,
        vec![
            transfer(&bid_token(), "seller", 20, 38),
            transfer(&sale_token(), "x", 100, 37),
            transfer(&bid_token(), "y", 20, 38),
        ]
    );
}

#[test]
fn earlier_bid_wins_the_tie_when_it_is_listed_last() {
    let (mut state, mut bids) = auction(100, 10);
    let seller = "seller".to_string();
    try_consign(&bids, &seller, 100, &mut state);
    // y is listed first, but bids again later and so holds the later bid
    try_bid(&mut bids, &env("bid-token", 1), &"y".to_string(), 15, &mut state);
    try_bid(&mut bids, &env("bid-token", 2), &"x".to_string(), 20, &mut state);
    try_bid(&mut bids, &env("bid-token", 3), &"y".to_string(), 20, &mut state);
    assert_eq!(state.bidders, vec!["y".to_string(), "x".to_string()]);
    let closing = try_finalize(&mut state, &mut bids, &env("seller", 4), false, false);
    assert_eq!(
        closing.messages,
        vec![
            transfer(&bid_token(), "seller", 20, 38),
            transfer(&sale_token(), "x", 100, 37),
            transfer(&bid_token(), "y", 20, 38),
        ]
    );
    assert_eq!(
        closing.data,
        Some(HandleAnswer::CloseAuction {
            status: ResponseStatus::Success,
            message: "Sale finalized.  You have been sent the winning bid tokens".to_string(),
            winning_bid: Some(20),
            amount_returned: None,
        })
    );
}

#[test]
fn highest_bid_wins_and_the_other_is_refunded() {
    let (mut state, mut bids) = auction(100, 10);
    let seller = "seller".to_string();
    try_consign(&bids, &seller, 100, &mut state);
    try_bid(&mut bids, &env("bid-token", 1), &"x".to_string(), 20, &mut state);
    try_bid(&mut bids, &env("bid-token", 2), &"y".to_string(), 30, &mut state);
    let closing = try_finalize(&mut state, &mut bids, &env("seller", 3), false, false);
    assert_eq!(
        closing.messages,
        vec![
            transfer(&bid_token(), "seller", 30, 38),
            transfer(&sale_token(), "y", 100, 37),
            transfer(&bid_token(), "x", 20, 38),
        ]
    );
    assert_eq!(closing.log, None);
    assert_eq!(
        closing.data,
        Some(HandleAnswer::CloseAuction {
            status: ResponseStatus::Success,
            message: "Sale finalized.  You have been sent the winning bid tokens".to_string(),
            winning_bid: Some(30),
            amount_returned: None,
        })
    );
    assert!(state.is_completed);
    assert!(state.tokens_consigned);
    assert_eq!(state.currently_consigned, 0);
    assert!(state.bidders.is_empty());
    assert_eq!(may_load(&bids, &"x".to_string()), None);
    assert_eq!(may_load(&bids, &"y".to_string()), None);
    assert!(is_valid(&state, &bids));
}

#[test]
fn losers_are_refunded_from_the_lowest_rank_up() {
    let (mut state, mut bids) = auction(5, 1);
    try_consign(&bids, &"seller".to_string(), 5, &mut state);
    try_bid(&mut bids, &env("bid-token", 10), &"a".to_string(), 30, &mut state);
    try_bid(&mut bids, &env("bid-token", 11), &"b".to_string(), 10, &mut state);
    try_bid(&mut bids, &env("bid-token", 12), &"c".to_string(), 30, &mut state);
    try_bid(&mut bids, &env("bid-token", 13), &"d".to_string(), 20, &mut state);
    let closing = try_finalize(&mut state, &mut bids, &env("seller", 14), true, false);
    assert_eq!(
        closing.messages,
        vec![
            transfer(&bid_token(), "seller", 30, 38),
            transfer(&sale_token(), "a", 5, 39),
            transfer(&bid_token(), "b", 10, 38),
            transfer(&bid_token(), "d", 20, 38),
            transfer(&bid_token(), "c", 30, 38),
        ]
    );
}

#[test]
fn closing_only_if_bids_without_bidders_is_refused() {
    let (mut state, mut bids) = auction(100, 10);
    try_consign(&bids, &"seller".to_string(), 100, &mut state);
    let before = state.clone();
    let closing = try_finalize(&mut state, &mut bids, &env("seller", 3), true, false);
    assert!(closing.messages.is_empty());
    assert_eq!(
        closing.data,
        Some(HandleAnswer::CloseAuction {
            status: ResponseStatus::Failure,
            message: "Did not close because there are no active bids".to_string(),
            winning_bid: None,
            amount_returned: None,
        })
    );
    assert_eq!(state, before);
    assert!(!state.is_completed);
}

#[test]
fn closing_before_full_consignment_returns_the_part() {
    let (mut state, mut bids) = auction(100, 10);
    try_consign(&bids, &"seller".to_string(), 50, &mut state);
    let closing = try_finalize(&mut state, &mut bids, &env("seller", 3), false, false);
    assert_eq!(closing.messages, vec![transfer(&sale_token(), "seller", 50, 38)]);
    assert_eq!(
        closing.data,
        Some(HandleAnswer::CloseAuction {
            status: ResponseStatus::Success,
            message: "Auction closed.  You have been returned the consigned tokens because you did not consign the full sale amount".to_string(),
            winning_bid: None,
            amount_returned: Some(50),
        })
    );
    assert!(state.is_completed);
    assert!(!state.tokens_consigned);
    assert_eq!(state.currently_consigned, 0);
}

#[test]
fn closing_before_full_consignment_refunds_bids_in_listed_order() {
    let (mut state, mut bids) = auction(100, 10);
    try_consign(&bids, &"seller".to_string(), 50, &mut state);
    try_bid(&mut bids, &env("bid-token", 1), &"x".to_string(), 30, &mut state);
    try_bid(&mut bids, &env("bid-token", 2), &"y".to_string(), 20, &mut state);
    let closing = try_finalize(&mut state, &mut bids, &env("seller", 3), true, false);
    assert_eq!(
        closing.messages,
        vec![
            transfer(&bid_token(), "x", 30, 38),
            transfer(&bid_token(), "y", 20, 38),
            transfer(&sale_token(), "seller", 50, 38),
        ]
    );
    assert_eq!(
        closing.data,
        Some(HandleAnswer::CloseAuction {
            status: ResponseStatus::Success,
            message: "Auction closed.  You have been returned the consigned tokens because you did not consign the full sale amount".to_string(),
            winning_bid: None,
            amount_returned: Some(50),
        })
    );
    assert!(state.bidders.is_empty());
}

#[test]
fn closing_without_bids_returns_the_consignment() {
    let (mut state, mut bids) = auction(100, 10);
    try_consign(&bids, &"seller".to_string(), 100, &mut state);
    let closing = try_finalize(&mut state, &mut bids, &env("seller", 3), false, false);
    assert_eq!(closing.messages, vec![transfer(&sale_token(), "seller", 100, 37)]);
    assert_eq!(
        closing.data,
        Some(HandleAnswer::CloseAuction {
            status: ResponseStatus::Success,
            message: "Auction closed.  You have been returned the consigned tokens because there were no active bids".to_string(),
            winning_bid: None,
            amount_returned: Some(100),
        })
    );
}

#[test]
fn closing_an_empty_auction_just_closes_it() {
    let (mut state, mut bids) = auction(100, 10);
    let closing = try_finalize(&mut state, &mut bids, &env("seller", 3), false, false);
    assert!(closing.messages.is_empty());
    assert_eq!(
        closing.data,
        Some(HandleAnswer::CloseAuction {
            status: ResponseStatus::Success,
            message: "Auction has been closed".to_string(),
            winning_bid: None,
            amount_returned: None,
        })
    );
    assert!(state.is_completed);
}

#[test]
fn only_the_seller_closes() {
    let (mut state, mut bids) = auction(100, 10);
    try_consign(&bids, &"seller".to_string(), 100, &mut state);
    try_bid(&mut bids, &env("bid-token", 1), &"x".to_string(), 30, &mut state);
    let before = state.clone();
    let closing = try_finalize(&mut state, &mut bids, &env("x", 3), false, false);
    assert!(closing.messages.is_empty());
    assert_eq!(
        closing.data,
        Some(HandleAnswer::CloseAuction {
            status: ResponseStatus::Failure,
            message: "Only auction creator can finalize the sale".to_string(),
            winning_bid: None,
            amount_returned: None,
        })
    );
    assert_eq!(state, before);
    assert_eq!(may_load(&bids, &"x".to_string()), Some(Bid { amount: 30, timestamp: 1 }));
}

#[test]
fn sweep_of_an_open_auction_is_refused() {
    let (mut state, mut bids) = auction(100, 10);
    try_consign(&bids, &"seller".to_string(), 50, &mut state);
    let before = state.clone();
    let sweep = handle(&mut state, &mut bids, env("anyone", 3), HandleMsg::ReturnAll {}).unwrap();
    assert!(sweep.messages.is_empty());
    assert_eq!(
        sweep.data,
        Some(HandleAnswer::CloseAuction {
            status: ResponseStatus::Failure,
            message: "return_all can only be executed after the auction has ended".to_string(),
            winning_bid: None,
            amount_returned: None,
        })
    );
    assert_eq!(state, before);
}

fn closed_with_leftovers() -> (State, BidStore) {
    let (mut state, mut bids) = auction(100, 10);
    state.is_completed = true;
    state.tokens_consigned = true;
    state.currently_consigned = 7;
    state.bidders = vec!["x".to_string(), "y".to_string()];
    escrow_auction::state::save(&mut bids, &"x".to_string(), Bid { amount: 40, timestamp: 9 });
    escrow_auction::state::save(&mut bids, &"y".to_string(), Bid { amount: 50, timestamp: 8 });
    assert!(is_valid(&state, &bids));
    (state, bids)
}

#[test]
fn sweep_returns_what_a_closed_auction_holds() {
    let (mut state, mut bids) = closed_with_leftovers();
    let sweep = handle(&mut state, &mut bids, env("anyone", 3), HandleMsg::ReturnAll {}).unwrap();
    assert_eq!(
        sweep.messages,
        vec![
            transfer(&bid_token(), "x", 40, 38),
            transfer(&bid_token(), "y", 50, 38),
            transfer(&sale_token(), "seller", 7, 39),
        ]
    );
    assert_eq!(
        sweep.data,
        Some(HandleAnswer::CloseAuction {
            status: ResponseStatus::Success,
            message: "Outstanding funds have been returned".to_string(),
            winning_bid: None,
            amount_returned: None,
        })
    );
    assert_eq!(state.currently_consigned, 0);
    assert!(state.bidders.is_empty());
    assert!(state.is_completed);
}

#[test]
fn second_sweep_changes_nothing() {
    let (mut state, mut bids) = closed_with_leftovers();
    let first = handle(&mut state, &mut bids, env("anyone", 3), HandleMsg::ReturnAll {}).unwrap();
    let after_first = state.clone();
    let second = handle(&mut state, &mut bids, env("other", 4), HandleMsg::ReturnAll {}).unwrap();
    assert!(second.messages.is_empty());
    assert_eq!(second.data, first.data);
    assert_eq!(state, after_first);
    let third = handle(&mut state, &mut bids, env("other", 5), HandleMsg::ReturnAll {}).unwrap();
    assert_eq!(third, second);
    assert_eq!(state, after_first);
}

#[test]
fn seller_closing_a_closed_auction_reports_what_was_left() {
    let (mut state, mut bids) = closed_with_leftovers();
    let closing = try_finalize(&mut state, &mut bids, &env("seller", 3), true, false);
    assert_eq!(
        closing.data,
        Some(HandleAnswer::CloseAuction {
            status: ResponseStatus::Success,
            message: "Auction closed.  You have been returned the consigned tokens".to_string(),
            winning_bid: None,
            amount_returned: Some(7),
        })
    );
    assert_eq!(closing.messages.len(), 3);
}

#[test]
fn higher_bid_sends_the_standing_bid_back() {
    let (mut state, mut bids) = auction(100, 10);
    let x = "x".to_string();
    try_bid(&mut bids, &env("bid-token", 1), &x, 20, &mut state);
    let raised = try_bid(&mut bids, &env("bid-token", 5), &x, 21, &mut state);
    assert_eq!(raised.messages, vec![transfer(&bid_token(), "x", 20, 38)]);
    assert_eq!(
        raised.log,
        Some(HandleAnswer::Bid {
            status: ResponseStatus::Success,
            message: "Bid accepted. Previously bid tokens have been returned".to_string(),
            previous_bid: None,
            amount_bid: Some(21),
            amount_returned: Some(20),
        })
    );
    assert_eq!(may_load(&bids, &x), Some(Bid { amount: 21, timestamp: 5 }));
    assert_eq!(state.bidders, vec![x]);
}

#[test]
fn latches_stay_set_through_later_instructions() {
    let (mut state, mut bids) = auction(10, 1);
    try_receive(&mut state, &mut bids, &env("sale-token", 1), &"seller".to_string(), 10);
    assert!(state.tokens_consigned);
    try_receive(&mut state, &mut bids, &env("sale-token", 2), &"seller".to_string(), 5);
    assert!(state.tokens_consigned);
    try_receive(&mut state, &mut bids, &env("bid-token", 3), &"x".to_string(), 4);
    try_retract(&mut state, &mut bids, &"x".to_string());
    assert!(state.tokens_consigned);
    assert!(!state.is_completed);
    try_finalize(&mut state, &mut bids, &env("seller", 4), false, false);
    assert!(state.tokens_consigned && state.is_completed);
    try_receive(&mut state, &mut bids, &env("sale-token", 5), &"seller".to_string(), 10);
    try_receive(&mut state, &mut bids, &env("bid-token", 6), &"x".to_string(), 4);
    try_finalize(&mut state, &mut bids, &env("seller", 7), false, false);
    try_finalize(&mut state, &mut bids, &env("x", 8), false, true);
    assert!(state.tokens_consigned && state.is_completed);
}

#[test]
fn books_balance_over_a_whole_auction() {
    let (mut state, mut bids) = auction(100, 10);
    let sale = sale_token();
    let bid = bid_token();
    let steps: Vec<(Env, HandleMsg)> = vec![
        (env("sale-token", 1), receive("sale-token", "seller", 70)),
        (env("sale-token", 2), receive("sale-token", "mallory", 30)),
        (env("bid-token", 3), receive("bid-token", "x", 5)),
        (env("bid-token", 4), receive("bid-token", "x", 0)),
        (env("bid-token", 5), receive("bid-token", "x", 25)),
        (env("sale-token", 6), receive("sale-token", "seller", 45)),
        (env("bid-token", 7), receive("bid-token", "y", 25)),
        (env("bid-token", 8), receive("bid-token", "z", 40)),
        (env("bid-token", 9), receive("bid-token", "x", 26)),
        (env("bid-token", 10), receive("bid-token", "x", 26)),
        (env("other-token", 11), receive("other-token", "x", 99)),
        (env("z", 12), HandleMsg::RetractBid {}),
        (env("z", 13), HandleMsg::ViewBid {}),
        (env("y", 14), HandleMsg::Finalize { only_if_bids: false }),
        (env("seller", 15), HandleMsg::Finalize { only_if_bids: true }),
        (env("bid-token", 16), receive("bid-token", "w", 50)),
        (env("w", 17), HandleMsg::ReturnAll {}),
    ];
    let mut sale_in = 0u128;
    let mut sale_out = 0u128;
    let mut bid_in = 0u128;
    let mut bid_out = 0u128;
    for (env, msg) in steps {
        if let HandleMsg::Receive { amount, .. } = &msg {
            if env.sender == sale.address {
                sale_in += *amount;
            }
            if env.sender == bid.address {
                bid_in += *amount;
            }
        }
        let response = handle(&mut state, &mut bids, env, msg).unwrap();
        sale_out += sent_by(&response, &sale);
        bid_out += sent_by(&response, &bid);
        assert!(is_valid(&state, &bids));
        assert_eq!(sale_in, sale_out + state.currently_consigned);
        assert_eq!(bid_in, bid_out + held(&state, &bids));
    }
    assert_eq!(sale_in, 145);
    assert_eq!(sale_out, 145);
    assert_eq!(bid_in, 197);
    assert_eq!(bid_out, 197);
    assert!(state.is_completed);
}

fn receive(sender: &str, from: &str, amount: u128) -> HandleMsg {
    HandleMsg::Receive {
        sender: sender.to_string(),
        from: from.to_string(),
        amount,
        msg: None,
    }
}
