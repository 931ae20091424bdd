use escrow_auction::error::ContractError;
use escrow_auction::msg::ContractInfo;
use escrow_auction::order::{ranks_higher, sort_by_rank, OwnedBid};
use escrow_auction::state::{is_valid, load, may_load, remove, save, Bid, BidStore, State};

fn key(name: &str) -> String {
    name.to_string()
}

fn bid(amount: u128, timestamp: u64) -> Bid {
    Bid { amount, timestamp }
}

fn owned(bidder: &str, amount: u128, timestamp: u64) -> OwnedBid {
    OwnedBid { bidder: bidder.to_string(), bid: bid(amount, timestamp) }
}

fn sound_state() -> State {
    State {
        auction_addr: "auction".to_string(),
        seller: "seller".to_string(),
        sell_contract: ContractInfo { code_hash: "s".to_string(), address: "sale".to_string() },
        bid_contract: ContractInfo { code_hash: "b".to_string(), address: "bid".to_string() },
        sell_amount: 100,
        minimum_bid: 10,
        currently_consigned: 40,
        bidders: vec![key("x"), key("y")],
        is_completed: false,
        tokens_consigned: false,
        description: None,
    }
}

fn matching_ledger() -> BidStore {
    let mut bids = BidStore::new();
    save(&mut bids, &key("y"), bid(10, 2));
    save(&mut bids, &key("x"), bid(30, 1));
    bids
}

#[test]
fn new_ledger_holds_nothing() {
    let bids = BidStore::new();
    assert_eq!(may_load(&bids, &key("x")), None);
    assert_eq!(load(&bids, &key("x")), Err(ContractError::NotFound));
    assert_eq!(ContractError::NotFound.message(), "Bid not found");
}

#[test]
fn saved_bid_is_loaded_again() {
    let mut bids = BidStore::new();
    save(&mut bids, &key("x"), bid(30, 1));
    save(&mut bids, &key("y"), bid(40, 2));
    assert_eq!(may_load(&bids, &key("x")), Some(bid(30, 1)));
    assert_eq!(load(&bids, &key("y")), Ok(bid(40, 2)));
    assert_eq!(may_load(&bids, &key("z")), None);
}

#[test]
fn saving_under_a_key_replaces_what_was_there() {
    let mut bids = BidStore::new();
    save(&mut bids, &key("x"), bid(30, 1));
    save(&mut bids, &key("y"), bid(40, 2));
    save(&mut bids, &key("x"), bid(50, 3));
    assert_eq!(may_load(&bids, &key("x")), Some(bid(50, 3)));
    assert_eq!(may_load(&bids, &key("y")), Some(bid(40, 2)));
    remove(&mut bids, &key("x"));
    assert_eq!(may_load(&bids, &key("x")), None);
}

#[test]
fn removing_drops_only_the_key() {
    let mut bids = BidStore::new();
    save(&mut bids, &key("x"), bid(30, 1));
    save(&mut bids, &key("y"), bid(40, 2));
    save(&mut bids, &key("z"), bid(50, 3));
    remove(&mut bids, &key("y"));
    assert_eq!(may_load(&bids, &key("x")), Some(bid(30, 1)));
    assert_eq!(load(&bids, &key("y")), Err(ContractError::NotFound));
    assert_eq!(may_load(&bids, &key("z")), Some(bid(50, 3)));
    remove(&mut bids, &key("nobody"));
    assert_eq!(may_load(&bids, &key("x")), Some(bid(30, 1)));
    assert_eq!(may_load(&bids, &key("z")), Some(bid(50, 3)));
}

#[test]
fn keys_are_told_apart_by_every_character() {
    let mut bids = BidStore::new();
    save(&mut bids, &key("abc"), bid(1, 1));
    assert_eq!(may_load(&bids, &key("ab")), None);
    assert_eq!(may_load(&bids, &key("abd")), None);
    assert_eq!(may_load(&bids, &key("")), None);
    save(&mut bids, &key(""), bid(2, 2));
    assert_eq!(may_load(&bids, &key("")), Some(bid(2, 2)));
    assert_eq!(may_load(&bids, &key("abc")), Some(bid(1, 1)));
}

#[test]
fn state_and_matching_ledger_are_valid() {
    assert!(is_valid(&sound_state(), &matching_ledger()));
}

#[test]
fn nothing_for_sale_is_invalid() {
    let mut state = sound_state();
    state.sell_amount = 0;
    state.currently_consigned = 0;
    assert!(!is_valid(&state, &matching_ledger()));
}

#[test]
fn one_token_on_both_sides_is_invalid() {
    let mut state = sound_state();
    state.bid_contract.address = "sale".to_string();
    assert!(!is_valid(&state, &matching_ledger()));
}

#[test]
fn escrow_beyond_the_amount_for_sale_is_invalid() {
    let mut state = sound_state();
    state.tokens_consigned = true;
    state.is_completed = true;
    state.currently_consigned = 100;
    assert!(is_valid(&state, &matching_ledger()));
    state.currently_consigned = 101;
    assert!(!is_valid(&state, &matching_ledger()));
}

#[test]
fn full_escrow_without_the_latch_is_invalid() {
    let mut state = sound_state();
    state.currently_consigned = 100;
    assert!(!is_valid(&state, &matching_ledger()));
    state.tokens_consigned = true;
    assert!(is_valid(&state, &matching_ledger()));
}

#[test]
fn short_escrow_with_the_latch_on_an_open_auction_is_invalid() {
    let mut state = sound_state();
    state.tokens_consigned = true;
    assert!(!is_valid(&state, &matching_ledger()));
    state.is_completed = true;
    assert!(is_valid(&state, &matching_ledger()));
}

#[test]
fn bidder_listed_twice_is_invalid() {
    let mut state = sound_state();
    state.bidders = vec![key("x"), key("y"), key("x")];
    assert!(!is_valid(&state, &matching_ledger()));
}

#[test]
fn bidder_without_a_bid_is_invalid() {
    let mut state = sound_state();
    state.bidders = vec![key("x"), key("y"), key("z")];
    assert!(!is_valid(&state, &matching_ledger()));
}

#[test]
fn bid_without_a_bidder_is_invalid() {
    let mut state = sound_state();
    state.bidders = vec![key("x")];
    assert!(!is_valid(&state, &matching_ledger()));
}

#[test]
fn bid_below_the_minimum_in_the_ledger_is_invalid() {
    let mut bids = matching_ledger();
    save(&mut bids, &key("y"), bid(9, 2));
    assert!(!is_valid(&sound_state(), &bids));
}

#[test]
fn bid_of_nothing_in_the_ledger_is_invalid() {
    let mut state = sound_state();
    state.minimum_bid = 0;
    let mut bids = matching_ledger();
    assert!(is_valid(&state, &bids));
    save(&mut bids, &key("y"), bid(0, 2));
    assert!(!is_valid(&state, &bids));
}

#[test]
fn higher_amount_ranks_higher() {
    assert!(ranks_higher(&bid(30, 9), &bid(20, 1)));
    assert!(!ranks_higher(&bid(20, 1), &bid(30, 9)));
}

#[test]
fn earlier_of_equal_amounts_ranks_higher() {
    assert!(ranks_higher(&bid(20, 1), &bid(20, 2)));
    assert!(!ranks_higher(&bid(20, 2), &bid(20, 1)));
}

#[test]
fn bid_does_not_outrank_its_equal() {
    assert!(!ranks_higher(&bid(20, 1), &bid(20, 1)));
}

#[test]
fn sorting_puts_the_winner_last() {
    let list = vec![owned("a", 20, 1), owned("b", 30, 2), owned("c", 10, 3)];
    assert_eq!(
        sort_by_rank(&list),
        vec![owned("c", 10, 3), owned("a", 20, 1), owned("b", 30, 2)]
    );
}

#[test]
fn sorting_puts_later_bids_of_an_amount_first() {
    let list = vec![owned("a", 20, 1), owned("b", 20, 3), owned("c", 20, 2)];
    assert_eq!(
        sort_by_rank(&list),
        vec![owned("b", 20, 3), owned("c", 20, 2), owned("a", 20, 1)]
    );
    let turned = vec![owned("c", 20, 2), owned("b", 20, 3), owned("a", 20, 1)];
    assert_eq!(sort_by_rank(&turned), sort_by_rank(&list));
}

#[test]
fn sorting_keeps_bids_of_one_rank_in_their_order() {
    let list = vec![owned("a", 20, 5), owned("b", 30, 5), owned("c", 20, 5), owned("d", 30, 5)];
    assert_eq!(
        sort_by_rank(&list),
        vec![owned("a", 20, 5), owned("c", 20, 5), owned("b", 30, 5), owned("d", 30, 5)]
    );
}

#[test]
fn sorting_nothing_and_one() {
    assert_eq!(sort_by_rank(&vec![]), vec![]);
    assert_eq!(sort_by_rank(&vec![owned("a", 1, 1)]), vec![owned("a", 1, 1)]);
}
