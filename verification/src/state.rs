//! What an auction keeps between instructions: its configuration and status,
//! and the ledger of the bids it holds in escrow.

use vstd::prelude::*;
use crate::error::ContractError;
use crate::msg::{opt_text, ContractInfo, ContractInfoView};

verus! {

/// A bid held in escrow.
#[derive(Clone, Copy, Debug, PartialEq, Eq)]
pub struct Bid {
    /// amount of bid tokens in escrow
    pub amount: u128,
    /// time the bid was placed, in seconds
    pub timestamp: u64,
}

/// One record of the ledger.
#[derive(Clone, Debug, PartialEq)]
pub struct StoredBid {
    key: String,
    bid: Bid,
}

/// The ledger of bids, keyed by the bidder's address. Each address has at
/// most one record.
#[derive(Clone, Debug, PartialEq)]
pub struct BidStore {
    entries: Vec<StoredBid>,
}

/// Some record of `entries` is kept under `key`.
pub closed spec fn has_key(entries: Seq<StoredBid>, key: Seq<char>) -> bool {
    exists|i: int| 0 <= i < entries.len() && (#[trigger] entries[i]).key@ == key
}

/// A place in `entries` where a record is kept under `key`.
pub closed spec fn index_of(entries: Seq<StoredBid>, key: Seq<char>) -> int {
    choose|i: int| 0 <= i < entries.len() && (#[trigger] entries[i]).key@ == key
}

/// No two records share a key.
pub closed spec fn distinct_keys(entries: Seq<StoredBid>) -> bool {
    forall|i: int, j: int|
        0 <= i < j < entries.len() ==> (#[trigger] entries[i]).key@ != (#[trigger] entries[j]).key@
}

proof fn lemma_entry(entries: Seq<StoredBid>, i: int)
    requires
        distinct_keys(entries),
        0 <= i < entries.len(),
    ensures
        has_key(entries, entries[i].key@),
        index_of(entries, entries[i].key@) == i,
{
    let k = entries[i].key@;
    assert(has_key(entries, k));
    let j = index_of(entries, k);
    assert(0 <= j < entries.len() && entries[j].key@ == k);
    if j < i {
        assert(entries[j].key@ != entries[i].key@);
    } else if i < j {
        assert(entries[i].key@ != entries[j].key@);
    }
}

impl View for BidStore {
    type V = Map<Seq<char>, Bid>;

    closed spec fn view(&self) -> Map<Seq<char>, Bid> {
        Map::new(
            |k: Seq<char>| has_key(self.entries@, k),
            |k: Seq<char>| self.entries@[index_of(self.entries@, k)].bid,
        )
    }
}

impl BidStore {
    /// The ledger keeps its records apart.
    pub closed spec fn wf(&self) -> bool {
        distinct_keys(self.entries@)
    }

    /// A ledger without bids.
    pub fn new() -> (store: Self)
        ensures
            store.wf(),
            store@ == Map::<Seq<char>, Bid>::empty(),
    {
        let store = BidStore { entries: Vec::new() };
        assert(store@ =~= Map::<Seq<char>, Bid>::empty());
        store
    }

    fn position(&self, key: &String) -> (found: Option<usize>)
        ensures
            match found {
                Some(i) => i < self.entries.len() && self.entries[i as int].key@ == key@,
                None => !has_key(self.entries@, key@),
            },
    {
        let mut i: usize = 0;
        while i < self.entries.len()
            invariant
                i <= self.entries.len(),
                forall|j: int| 0 <= j < i ==> (#[trigger] self.entries[j]).key@ != key@,
            decreases self.entries.len() - i,
        {
            if self.entries[i].key == *key {
                return Some(i);
            }
            i = i + 1;
        }
        None
    }
}

/// Keeps `value` under `key`, in place of whatever was kept there.
pub fn save(storage: &mut BidStore, key: &String, value: Bid)
    requires
        old(storage).wf(),
    ensures
        final(storage).wf(),
        final(storage)@ == old(storage)@.insert(key@, value),
{
    let ghost before = storage.entries@;
    match storage.position(key) {
        Some(i) => {
            storage.entries.set(i, StoredBid { key: key.clone(), bid: value });
            proof {
                let after = storage.entries@;
                assert forall|a: int, b: int| 0 <= a < b < after.len() implies (
                #[trigger] after[a]).key@ != (#[trigger] after[b]).key@ by {
                    assert(before[a].key@ != before[b].key@);
                }
                assert forall|k: Seq<char>| has_key(after, k) == (has_key(before, k) || k
                    == key@) by {
                    if has_key(after, k) {
                        let j = index_of(after, k);
                        assert(before[j].key@ == k);
                    }
                    if has_key(before, k) {
                        let j = index_of(before, k);
                        assert(after[j].key@ == k);
                    }
                    if k == key@ {
                        assert(after[i as int].key@ == k);
                    }
                }
                assert forall|k: Seq<char>| has_key(after, k) implies #[trigger] storage@[k]
                    == old(storage)@.insert(key@, value)[k] by {
                    let j = index_of(after, k);
                    lemma_entry(after, j);
                    assert(before[j].key@ == k);
                    lemma_entry(before, j);
                }
                assert(storage@ =~= old(storage)@.insert(key@, value));
            }
        },
        None => {
            storage.entries.push(StoredBid { key: key.clone(), bid: value });
            proof {
                let after = storage.entries@;
                let n = before.len() as int;
                assert forall|a: int, b: int| 0 <= a < b < after.len() implies (
                #[trigger] after[a]).key@ != (#[trigger] after[b]).key@ by {
                    if b < n {
                        assert(before[a].key@ != before[b].key@);
                    } else {
                        assert(before[a].key@ != key@);
                    }
                }
                assert forall|k: Seq<char>| has_key(after, k) == (has_key(before, k) || k
                    == key@) by {
                    if has_key(after, k) {
                        let j = index_of(after, k);
                        if j < n {
                            assert(before[j].key@ == k);
                        }
                    }
                    if has_key(before, k) {
                        let j = index_of(before, k);
                        assert(after[j].key@ == k);
                    }
                    if k == key@ {
                        assert(after[n].key@ == k);
                    }
                }
                assert forall|k: Seq<char>| has_key(after, k) implies #[trigger] storage@[k]
                    == old(storage)@.insert(key@, value)[k] by {
                    let j = index_of(after, k);
                    lemma_entry(after, j);
                    if j < n {
                        assert(before[j].key@ == k);
                        lemma_entry(before, j);
                    }
                }
                assert(storage@ =~= old(storage)@.insert(key@, value));
            }
        },
    }
}

/// Drops whatever is kept under `key`.
pub fn remove(storage: &mut BidStore, key: &String)
    requires
        old(storage).wf(),
    ensures
        final(storage).wf(),
        final(storage)@ == old(storage)@.remove(key@),
{
    let ghost before = storage.entries@;
    match storage.position(key) {
        Some(i) => {
            let _ = storage.entries.remove(i);
            proof {
                let after = storage.entries@;
                let at = i as int;
                assert forall|a: int| 0 <= a < after.len() implies #[trigger] after[a] == before[if a
                    < at {
                    a
                } else {
                    a + 1
                }] by {}
                assert forall|a: int, b: int| 0 <= a < b < after.len() implies (
                #[trigger] after[a]).key@ != (#[trigger] after[b]).key@ by {
                    let a0 = if a < at { a } else { a + 1 };
                    let b0 = if b < at { b } else { b + 1 };
                    assert(before[a0].key@ != before[b0].key@);
                }
                assert forall|k: Seq<char>| has_key(after, k) == (has_key(before, k) && k
                    != key@) by {
                    if has_key(after, k) {
                        let j = index_of(after, k);
                        let j0 = if j < at { j } else { j + 1 };
                        assert(before[j0].key@ == k);
                        if j0 < at {
                            assert(before[j0].key@ != before[at].key@);
                        } else {
                            assert(before[at].key@ != before[j0].key@);
                        }
                    }
                    if has_key(before, k) && k != key@ {
                        let j = index_of(before, k);
                        let j1 = if j < at { j } else { j - 1 };
                        assert(after[j1].key@ == k);
                    }
                }
                assert forall|k: Seq<char>| has_key(after, k) implies #[trigger] storage@[k]
                    == old(storage)@.remove(key@)[k] by {
                    let j = index_of(after, k);
                    lemma_entry(after, j);
                    let j0 = if j < at { j } else { j + 1 };
                    assert(before[j0].key@ == k);
                    lemma_entry(before, j0);
                }
                assert(storage@ =~= old(storage)@.remove(key@));
            }
        },
        None => {
            assert(storage@ =~= old(storage)@.remove(key@));
        },
    }
}

/// The bid kept under `key`, if there is one.
pub fn may_load(storage: &BidStore, key: &String) -> (found: Option<Bid>)
    requires
        storage.wf(),
    ensures
        found == if storage@.dom().contains(key@) {
            Some(storage@[key@])
        } else {
            None
        },
{
    match storage.position(key) {
        Some(i) => {
            proof {
                lemma_entry(storage.entries@, i as int);
            }
            Some(storage.entries[i].bid)
        },
        None => None,
    }
}

/// The bid kept under `key`; an error where there is none.
pub fn load(storage: &BidStore, key: &String) -> (found: Result<Bid, ContractError>)
    requires
        storage.wf(),
    ensures
        found == if storage@.dom().contains(key@) {
            Ok::<Bid, ContractError>(storage@[key@])
        } else {
            Err::<Bid, ContractError>(ContractError::NotFound)
        },
{
    match may_load(storage, key) {
        Some(bid) => Ok(bid),
        None => Err(ContractError::NotFound),
    }
}

/// The addresses that a list of strings spells.
pub open spec fn names(list: Seq<String>) -> Seq<Seq<char>> {
    Seq::new(list.len(), |i: int| list[i]@)
}

/// The configuration and status of an auction.
#[derive(Clone, Debug, PartialEq)]
pub struct State {
    /// address of the auction itself
    pub auction_addr: String,
    /// address of the auction's creator
    pub seller: String,
    /// the token that is sold
    pub sell_contract: ContractInfo,
    /// the token in which bids are made
    pub bid_contract: ContractInfo,
    /// amount of tokens for sale
    pub sell_amount: u128,
    /// the smallest bid that is accepted
    pub minimum_bid: u128,
    /// amount of sale tokens in escrow
    pub currently_consigned: u128,
    /// addresses with a bid in escrow, in the order in which they first bid
    pub bidders: Vec<String>,
    /// true once the auction is closed
    pub is_completed: bool,
    /// true once the full amount for sale has been in escrow
    pub tokens_consigned: bool,
    /// free text about the auction
    pub description: Option<String>,
}

/// What a `State` stands for in specifications.
pub struct StateView {
    pub auction_addr: Seq<char>,
    pub seller: Seq<char>,
    pub sell_contract: ContractInfoView,
    pub bid_contract: ContractInfoView,
    pub sell_amount: u128,
    pub minimum_bid: u128,
    pub currently_consigned: u128,
    pub bidders: Seq<Seq<char>>,
    pub is_completed: bool,
    pub tokens_consigned: bool,
    pub description: Option<Seq<char>>,
}

impl View for State {
    type V = StateView;

    open spec fn view(&self) -> StateView {
        StateView {
            auction_addr: self.auction_addr@,
            seller: self.seller@,
            sell_contract: self.sell_contract@,
            bid_contract: self.bid_contract@,
            sell_amount: self.sell_amount,
            minimum_bid: self.minimum_bid,
            currently_consigned: self.currently_consigned,
            bidders: names(self.bidders@),
            is_completed: self.is_completed,
            tokens_consigned: self.tokens_consigned,
            description: opt_text(self.description),
        }
    }
}

/// What holds of an auction's own record between any two instructions.
///
/// Something is for sale, and not for its own kind. The escrow of sale tokens
/// never exceeds what is for sale; it is short of it until the consignment is
/// complete and equal to it from then until the auction closes. No bidder is
/// listed twice.
pub open spec fn sound(state: StateView) -> bool {
    &&& state.sell_amount > 0
    &&& state.sell_contract.address != state.bid_contract.address
    &&& state.currently_consigned <= state.sell_amount
    &&& (!state.tokens_consigned ==> state.currently_consigned < state.sell_amount)
    &&& (state.tokens_consigned && !state.is_completed ==> state.currently_consigned
        == state.sell_amount)
    &&& state.bidders.no_duplicates()
}

/// What holds of an auction's state and ledger between any two
/// instructions: the state is sound, the ledger holds a bid for exactly the
/// bidders listed, and every bid is positive and meets the minimum.
pub open spec fn valid(state: StateView, bids: Map<Seq<char>, Bid>) -> bool {
    &&& sound(state)
    &&& (forall|k: Seq<char>|
        #![trigger state.bidders.contains(k)]
        #![trigger bids.dom().contains(k)]
        state.bidders.contains(k) <==> bids.dom().contains(k))
    &&& (forall|k: Seq<char>| #[trigger]
        bids.dom().contains(k) ==> bids[k].amount > 0 && bids[k].amount >= state.minimum_bid)
}

impl State {
    /// Where `bidder` stands in the list of bidders, if it does.
    pub fn bidder_index(&self, bidder: &String) -> (found: Option<usize>)
        ensures
            match found {
                Some(i) => i < self@.bidders.len() && self@.bidders[i as int] == bidder@ && forall|
                    j: int,
                | 0 <= j < i ==> self@.bidders[j] != bidder@,
                None => !self@.bidders.contains(bidder@),
            },
    {
        let mut i: usize = 0;
        while i < self.bidders.len()
            invariant
                i <= self.bidders.len(),
                forall|j: int| 0 <= j < i ==> (#[trigger] self@.bidders[j]) != bidder@,
            decreases self.bidders.len() - i,
        {
            if self.bidders[i] == *bidder {
                return Some(i);
            }
            i = i + 1;
        }
        None
    }
}

/// Tests whether a state and a ledger, as they were read from storage, are
/// those of an auction.
pub fn is_valid(state: &State, bids: &BidStore) -> (ok: bool)
    requires
        bids.wf(),
    ensures
        ok == valid(state@, bids@),
{
    if state.sell_amount == 0 || state.sell_contract.address == state.bid_contract.address
        || state.currently_consigned > state.sell_amount || (!state.tokens_consigned
        && state.currently_consigned >= state.sell_amount) || (state.tokens_consigned
        && !state.is_completed && state.currently_consigned != state.sell_amount) {
        return false;
    }
    let ghost listed = state@.bidders;
    let n = state.bidders.len();
    let mut i: usize = 0;
    while i < n
        invariant
            i <= n,
            n == state.bidders.len(),
            listed == state@.bidders,
            bids.wf(),
            forall|a: int, b: int| 0 <= a < b < i ==> listed[a] != listed[b],
            forall|a: int|
                0 <= a < i ==> bids@.dom().contains(#[trigger] listed[a]) && bids@[listed[a]].amount
                    > 0 && bids@[listed[a]].amount >= state.minimum_bid,
        decreases n - i,
    {
        let mut j: usize = 0;
        while j < i
            invariant
                j <= i < n,
                n == state.bidders.len(),
                listed == state@.bidders,
                forall|a: int| 0 <= a < j ==> #[trigger] listed[a] != listed[i as int],
            decreases i - j,
        {
            if state.bidders[j] == state.bidders[i] {
                assert(listed[j as int] == listed[i as int]);
                return false;
            }
            j = j + 1;
        }
        match may_load(bids, &state.bidders[i]) {
            Some(bid) => {
                if bid.amount == 0 || bid.amount < state.minimum_bid {
                    assert(bids@.dom().contains(listed[i as int]));
                    return false;
                }
            },
            None => {
                assert(listed.contains(listed[i as int]));
                return false;
            },
        }
        i = i + 1;
    }
    let mut k: usize = 0;
    while k < bids.entries.len()
        invariant
            k <= bids.entries.len(),
            listed == state@.bidders,
            bids.wf(),
            forall|a: int| 0 <= a < k ==> listed.contains(#[trigger] bids.entries[a].key@),
        decreases bids.entries.len() - k,
    {
        if state.bidder_index(&bids.entries[k].key).is_none() {
            proof {
                lemma_entry(bids.entries@, k as int);
            }
            return false;
        }
        k = k + 1;
    }
    proof {
        assert forall|key: Seq<char>| bids@.dom().contains(key) implies listed.contains(key) by {
            let at = index_of(bids.entries@, key);
            assert(listed.contains(bids.entries[at].key@));
        }
        assert forall|key: Seq<char>| listed.contains(key) implies bids@.dom().contains(key) by {
            let at = choose|a: int| 0 <= a < listed.len() && listed[a] == key;
            assert(bids@.dom().contains(listed[at]));
        }
    }
    true
}

} // verus!
