//! The messages the auction receives and the answers and token calls it
//! gives, together with the blank padding that keeps their length from
//! telling anything.

use vstd::prelude::*;
use vstd::string::*;
use crate::text::{blanks, decimal_digits, decimal_len, spaces};

verus! {

/// Code hash and address of a token contract.
#[derive(Clone, Debug, PartialEq)]
pub struct ContractInfo {
    /// code hash of the contract
    pub code_hash: String,
    /// address of the contract
    pub address: String,
}

/// What a `ContractInfo` stands for in specifications.
pub struct ContractInfoView {
    pub code_hash: Seq<char>,
    pub address: Seq<char>,
}

impl View for ContractInfo {
    type V = ContractInfoView;

    open spec fn view(&self) -> ContractInfoView {
        ContractInfoView { code_hash: self.code_hash@, address: self.address@ }
    }
}

/// The view of an optional string.
pub open spec fn opt_text(s: Option<String>) -> Option<Seq<char>> {
    match s {
        Some(t) => Some(t@),
        None => None,
    }
}

/// Asks a token contract to move `amount` tokens to `recipient`.
#[derive(Clone, Debug, PartialEq)]
pub struct TransferMsg {
    pub recipient: String,
    pub amount: u128,
    /// blanks that bring every amount to the same written width
    pub padding: Option<String>,
}

pub struct TransferMsgView {
    pub recipient: Seq<char>,
    pub amount: u128,
    pub padding: Option<Seq<char>>,
}

impl View for TransferMsg {
    type V = TransferMsgView;

    open spec fn view(&self) -> TransferMsgView {
        TransferMsgView {
            recipient: self.recipient@,
            amount: self.amount,
            padding: opt_text(self.padding),
        }
    }
}

/// The width to which an amount and its padding add up.
pub const AMOUNT_WIDTH: usize = 40;

/// The transfer of `amount` to `recipient`, padded.
pub open spec fn transfer_of(recipient: Seq<char>, amount: u128) -> TransferMsgView {
    TransferMsgView {
        recipient,
        amount,
        padding: Some(blanks((AMOUNT_WIDTH - decimal_len(amount as nat)) as nat)),
    }
}

/// Asks a token contract to notify the contract with the given code hash of
/// every token it receives.
#[derive(Clone, Debug, PartialEq)]
pub struct RegisterMsg {
    pub code_hash: String,
}

pub struct RegisterMsgView {
    pub code_hash: Seq<char>,
}

impl View for RegisterMsg {
    type V = RegisterMsgView;

    open spec fn view(&self) -> RegisterMsgView {
        RegisterMsgView { code_hash: self.code_hash@ }
    }
}

/// What a call to a token contract carries.
#[derive(Clone, Debug, PartialEq)]
pub enum TokenCall {
    Transfer(TransferMsg),
    RegisterReceive(RegisterMsg),
}

pub enum TokenCallView {
    Transfer(TransferMsgView),
    RegisterReceive(RegisterMsgView),
}

impl View for TokenCall {
    type V = TokenCallView;

    open spec fn view(&self) -> TokenCallView {
        match self {
            TokenCall::Transfer(t) => TokenCallView::Transfer(t@),
            TokenCall::RegisterReceive(r) => TokenCallView::RegisterReceive(r@),
        }
    }
}

/// A call for the host chain to deliver: `msg` goes to the contract at
/// `contract_addr`, which has the code hash `callback_code_hash`. No funds
/// are attached.
#[derive(Clone, Debug, PartialEq)]
pub struct CosmosMsg {
    pub msg: TokenCall,
    pub callback_code_hash: String,
    pub contract_addr: String,
}

pub struct CosmosMsgView {
    pub msg: TokenCallView,
    pub callback_code_hash: Seq<char>,
    pub contract_addr: Seq<char>,
}

impl View for CosmosMsg {
    type V = CosmosMsgView;

    open spec fn view(&self) -> CosmosMsgView {
        CosmosMsgView {
            msg: self.msg@,
            callback_code_hash: self.callback_code_hash@,
            contract_addr: self.contract_addr@,
        }
    }
}

/// The views of a list of calls, in order.
pub open spec fn calls_view(calls: Seq<CosmosMsg>) -> Seq<CosmosMsgView> {
    Seq::new(calls.len(), |i: int| calls[i]@)
}

/// The call that has `token` transfer `amount` to `recipient`.
pub open spec fn transfer_call(token: ContractInfoView, recipient: Seq<char>, amount: u128)
    -> CosmosMsgView {
    CosmosMsgView {
        msg: TokenCallView::Transfer(transfer_of(recipient, amount)),
        callback_code_hash: token.code_hash,
        contract_addr: token.address,
    }
}

/// The call that registers the contract with code hash `code_hash` as a
/// receiver with `token`.
pub open spec fn register_call(token: ContractInfoView, code_hash: Seq<char>) -> CosmosMsgView {
    CosmosMsgView {
        msg: TokenCallView::RegisterReceive(RegisterMsgView { code_hash }),
        callback_code_hash: token.code_hash,
        contract_addr: token.address,
    }
}

impl TransferMsg {
    /// A transfer whose padding makes up for the digits the amount lacks.
    pub fn new(recipient: String, amount: u128) -> (msg: Self)
        ensures
            msg@ == transfer_of(recipient@, amount),
    {
        let digits = decimal_digits(amount);
        let padding = Some(spaces(AMOUNT_WIDTH - digits));
        TransferMsg { recipient, amount, padding }
    }

    /// Addresses this transfer to the token contract named.
    pub fn into_cosmos_msg(self, callback_code_hash: String, contract_addr: String) -> (call:
        CosmosMsg)
        ensures
            call@ == (CosmosMsgView {
                msg: TokenCallView::Transfer(self@),
                callback_code_hash: callback_code_hash@,
                contract_addr: contract_addr@,
            }),
    {
        CosmosMsg { msg: TokenCall::Transfer(self), callback_code_hash, contract_addr }
    }
}

impl RegisterMsg {
    /// Addresses this registration to the token contract named.
    pub fn into_cosmos_msg(self, callback_code_hash: String, contract_addr: String) -> (call:
        CosmosMsg)
        ensures
            call@ == (CosmosMsgView {
                msg: TokenCallView::RegisterReceive(self@),
                callback_code_hash: callback_code_hash@,
                contract_addr: contract_addr@,
            }),
    {
        CosmosMsg { msg: TokenCall::RegisterReceive(self), callback_code_hash, contract_addr }
    }
}

impl ContractInfo {
    /// The call that has this token transfer `amount` to `recipient`.
    pub fn transfer_msg(&self, recipient: &String, amount: u128) -> (call: CosmosMsg)
        ensures
            call@ == transfer_call(self@, recipient@, amount),
    {
        TransferMsg::new(recipient.clone(), amount).into_cosmos_msg(
            self.code_hash.clone(),
            self.address.clone(),
        )
    }

    /// The call that registers the contract with code hash `code_hash` as a
    /// receiver with this token.
    pub fn register_receive_msg(&self, code_hash: &String) -> (call: CosmosMsg)
        ensures
            call@ == register_call(self@, code_hash@),
    {
        let msg = RegisterMsg { code_hash: code_hash.clone() };
        msg.into_cosmos_msg(self.code_hash.clone(), self.address.clone())
    }
}

/// What is needed to create an auction.
#[derive(Clone, Debug, PartialEq)]
pub enum InitMsg {
    CreateAuction {
        /// the token that is sold
        sell_contract: ContractInfo,
        /// the token in which bids are made
        bid_contract: ContractInfo,
        /// how much is sold
        sell_amount: u128,
        /// the smallest bid that is accepted
        minimum_bid: u128,
        /// free text about the auction
        description: Option<String>,
    },
}

/// What an `InitMsg` stands for in specifications.
pub enum InitMsgView {
    CreateAuction {
        sell_contract: ContractInfoView,
        bid_contract: ContractInfoView,
        sell_amount: u128,
        minimum_bid: u128,
        description: Option<Seq<char>>,
    },
}

impl View for InitMsg {
    type V = InitMsgView;

    open spec fn view(&self) -> InitMsgView {
        match self {
            InitMsg::CreateAuction {
                sell_contract,
                bid_contract,
                sell_amount,
                minimum_bid,
                description,
            } => InitMsgView::CreateAuction {
                sell_contract: sell_contract@,
                bid_contract: bid_contract@,
                sell_amount: *sell_amount,
                minimum_bid: *minimum_bid,
                description: opt_text(*description),
            },
        }
    }
}

/// The instructions an auction takes.
#[derive(Clone, Debug, PartialEq)]
pub enum HandleMsg {
    /// A token contract reports that `from` sent `amount` tokens into
    /// escrow: a consignment where the sale token reports it, a bid where
    /// the bid token does.
    Receive { sender: String, from: String, amount: u128, msg: Option<Vec<u8>> },
    /// The caller takes back their bid.
    RetractBid {},
    /// The caller asks for their bid.
    ViewBid {},
    /// The seller closes the auction; with `only_if_bids` it stays open
    /// while nobody has bid.
    Finalize { only_if_bids: bool },
    /// Returns whatever a closed auction still holds.
    ReturnAll {},
}

/// What a `HandleMsg` stands for in specifications.
pub enum HandleMsgView {
    Receive { sender: Seq<char>, from: Seq<char>, amount: u128, msg: Option<Seq<u8>> },
    RetractBid {  },
    ViewBid {  },
    Finalize { only_if_bids: bool },
    ReturnAll {  },
}

impl View for HandleMsg {
    type V = HandleMsgView;

    open spec fn view(&self) -> HandleMsgView {
        match self {
            HandleMsg::Receive { sender, from, amount, msg } => HandleMsgView::Receive {
                sender: sender@,
                from: from@,
                amount: *amount,
                msg: match msg {
                    Some(bytes) => Some(bytes@),
                    None => None,
                },
            },
            HandleMsg::RetractBid {  } => HandleMsgView::RetractBid {  },
            HandleMsg::ViewBid {  } => HandleMsgView::ViewBid {  },
            HandleMsg::Finalize { only_if_bids } => HandleMsgView::Finalize {
                only_if_bids: *only_if_bids,
            },
            HandleMsg::ReturnAll {  } => HandleMsgView::ReturnAll {  },
        }
    }
}

/// The questions an auction answers.
#[derive(Clone, Debug, PartialEq)]
pub enum QueryMsg {
    AuctionInfo {},
}

/// How a token describes itself.
#[derive(Clone, Debug, PartialEq, Default)]
pub struct TokenInfo {
    pub name: String,
    pub symbol: String,
    pub decimals: u8,
    pub total_supply: Option<u128>,
}

pub struct TokenInfoView {
    pub name: Seq<char>,
    pub symbol: Seq<char>,
    pub decimals: u8,
    pub total_supply: Option<u128>,
}

impl View for TokenInfo {
    type V = TokenInfoView;

    open spec fn view(&self) -> TokenInfoView {
        TokenInfoView {
            name: self.name@,
            symbol: self.symbol@,
            decimals: self.decimals,
            total_supply: self.total_supply,
        }
    }
}

/// A token contract's answer when asked to describe its token.
#[derive(Clone, Debug, PartialEq)]
pub struct TokenQuery {
    pub token_info: TokenInfo,
}

/// A token as the auction reports it: where it lives and how it describes
/// itself.
#[derive(Clone, Debug, PartialEq)]
pub struct Token {
    pub contract_address: String,
    pub token_info: TokenInfo,
}

pub struct TokenView {
    pub contract_address: Seq<char>,
    pub token_info: TokenInfoView,
}

impl View for Token {
    type V = TokenView;

    open spec fn view(&self) -> TokenView {
        TokenView { contract_address: self.contract_address@, token_info: self.token_info@ }
    }
}

/// The answers to `QueryMsg`.
#[derive(Clone, Debug, PartialEq)]
pub enum QueryAnswer {
    AuctionInfo {
        sell_token: Token,
        bid_token: Token,
        sell_amount: u128,
        minimum_bid: u128,
        description: Option<String>,
        auction_address: String,
        status: String,
    },
}

pub enum QueryAnswerView {
    AuctionInfo {
        sell_token: TokenView,
        bid_token: TokenView,
        sell_amount: u128,
        minimum_bid: u128,
        description: Option<Seq<char>>,
        auction_address: Seq<char>,
        status: Seq<char>,
    },
}

impl View for QueryAnswer {
    type V = QueryAnswerView;

    open spec fn view(&self) -> QueryAnswerView {
        match self {
            QueryAnswer::AuctionInfo {
                sell_token,
                bid_token,
                sell_amount,
                minimum_bid,
                description,
                auction_address,
                status,
            } => QueryAnswerView::AuctionInfo {
                sell_token: sell_token@,
                bid_token: bid_token@,
                sell_amount: *sell_amount,
                minimum_bid: *minimum_bid,
                description: opt_text(*description),
                auction_address: auction_address@,
                status: status@,
            },
        }
    }
}

/// Whether an instruction did what it was sent for.
#[derive(Clone, Copy, Debug, PartialEq, Eq)]
pub enum ResponseStatus {
    Success,
    Failure,
}

/// What the auction answers to an instruction.
#[derive(Clone, Debug, PartialEq)]
pub enum HandleAnswer {
    Consign {
        status: ResponseStatus,
        message: String,
        amount_consigned: Option<u128>,
        amount_needed: Option<u128>,
        amount_returned: Option<u128>,
    },
    Bid {
        status: ResponseStatus,
        message: String,
        previous_bid: Option<u128>,
        amount_bid: Option<u128>,
        amount_returned: Option<u128>,
    },
    CloseAuction {
        status: ResponseStatus,
        message: String,
        winning_bid: Option<u128>,
        amount_returned: Option<u128>,
    },
    RetractBid { status: ResponseStatus, message: String, amount_returned: Option<u128> },
    Status { status: ResponseStatus, message: String },
}

pub enum HandleAnswerView {
    Consign {
        status: ResponseStatus,
        message: Seq<char>,
        amount_consigned: Option<u128>,
        amount_needed: Option<u128>,
        amount_returned: Option<u128>,
    },
    Bid {
        status: ResponseStatus,
        message: Seq<char>,
        previous_bid: Option<u128>,
        amount_bid: Option<u128>,
        amount_returned: Option<u128>,
    },
    CloseAuction {
        status: ResponseStatus,
        message: Seq<char>,
        winning_bid: Option<u128>,
        amount_returned: Option<u128>,
    },
    RetractBid { status: ResponseStatus, message: Seq<char>, amount_returned: Option<u128> },
    Status { status: ResponseStatus, message: Seq<char> },
}

impl View for HandleAnswer {
    type V = HandleAnswerView;

    open spec fn view(&self) -> HandleAnswerView {
        match self {
            HandleAnswer::Consign {
                status,
                message,
                amount_consigned,
                amount_needed,
                amount_returned,
            } => HandleAnswerView::Consign {
                status: *status,
                message: message@,
                amount_consigned: *amount_consigned,
                amount_needed: *amount_needed,
                amount_returned: *amount_returned,
            },
            HandleAnswer::Bid { status, message, previous_bid, amount_bid, amount_returned } =>
                HandleAnswerView::Bid {
                    status: *status,
                    message: message@,
                    previous_bid: *previous_bid,
                    amount_bid: *amount_bid,
                    amount_returned: *amount_returned,
                },
            HandleAnswer::CloseAuction { status, message, winning_bid, amount_returned } =>
                HandleAnswerView::CloseAuction {
                    status: *status,
                    message: message@,
                    winning_bid: *winning_bid,
                    amount_returned: *amount_returned,
                },
            HandleAnswer::RetractBid { status, message, amount_returned } =>
                HandleAnswerView::RetractBid {
                    status: *status,
                    message: message@,
                    amount_returned: *amount_returned,
                },
            HandleAnswer::Status { status, message } => HandleAnswerView::Status {
                status: *status,
                message: message@,
            },
        }
    }
}

/// The view of an optional answer.
pub open spec fn opt_answer(answer: Option<HandleAnswer>) -> Option<HandleAnswerView> {
    match answer {
        Some(a) => Some(a@),
        None => None,
    }
}

/// The byte that pads: a blank.
pub const BLANK: u8 = 32;

/// How many blanks bring `len` up to the next multiple of `block_size`.
pub open spec fn missing_to_block(len: nat, block_size: nat) -> nat {
    if len % block_size == 0 {
        0
    } else {
        (block_size - len % block_size) as nat
    }
}

/// Pads `message` with blanks at the end, up to the next multiple of
/// `block_size` bytes.
pub fn space_pad(block_size: usize, message: &mut Vec<u8>) -> (padded: &mut Vec<u8>)
    requires
        block_size > 0,
    ensures
        padded@ == old(message)@ + Seq::new(
            missing_to_block(old(message)@.len(), block_size as nat),
            |i: int| BLANK,
        ),
        *final(message) == *final(padded),
{
    let len = message.len();
    let surplus = len % block_size;
    if surplus == 0 {
        assert(message@ =~= message@ + Seq::new(0, |i: int| BLANK));
        return message;
    }
    let missing = block_size - surplus;
    let mut i: usize = 0;
    while i < missing
        invariant
            i <= missing,
            message@ == old(message)@ + Seq::new(i as nat, |j: int| BLANK),
        decreases missing - i,
    {
        message.push(BLANK);
        i = i + 1;
    }
    message
}

/// Pads `response` with blanks at the end, up to `block_size` characters.
pub fn pad_log_str(block_size: usize, response: &mut String)
    requires
        old(response)@.len() <= block_size,
    ensures
        final(response)@ == old(response)@ + blanks((block_size - old(response)@.len()) as nat),
{
    let len = response.as_str().unicode_len();
    let pad = spaces(block_size - len);
    response.append(pad.as_str());
}

} // verus!
