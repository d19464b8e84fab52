//! The messages that the market takes and the answers that it gives.

use crate::payment::{Coin, CoinView};
use vstd::prelude::*;

verus! {

/// Sets a market up.
#[derive(Clone, Debug, PartialEq, Eq)]
pub struct FriendTechAppInstantiateMsg {
    pub username: String,
    pub issuer_fee_collector: String,
    pub fee_denom: String,
}

/// The trades. Both are paid: funds come with the message.
#[derive(Clone, Copy, Debug, PartialEq, Eq)]
pub enum FriendTechAppExecuteMsg {
    /// Anyone may buy keys of the issuer.
    BuyKey { amount: u128 },
    /// Any holder may sell keys back.
    SellKey { amount: u128 },
}

/// Moves a market to a later version. It carries nothing.
#[derive(Clone, Copy, Debug, PartialEq, Eq)]
pub struct FriendTechAppMigrateMsg {}

/// The questions that the market answers without changing.
#[derive(Clone, Debug, PartialEq, Eq)]
pub enum FriendTechAppQueryMsg {
    Issuer {},
    SimulateBuyKey { amount: u128 },
    SimulateSellKey { amount: u128 },
    Holders { limit: Option<u32>, start_after: Option<String> },
    Holding { holder: String },
}

/// The market's configuration and the number of keys that are out.
#[derive(Clone, Debug, PartialEq, Eq)]
pub struct IssuerResponse {
    pub username: String,
    pub fee_denom: String,
    pub issuer_fee_collector: String,
    pub supply: u128,
}

/// What buying an amount of keys would cost.
#[derive(Clone, Copy, Debug, PartialEq, Eq)]
pub struct SimulateBuyKeyResponse {
    /// Price of the keys.
    pub price: u128,
    /// Fee that goes to the issuer.
    pub issuer_fee: u128,
    /// What the buyer has to pay: price and fee.
    pub total_cost: u128,
}

/// What selling an amount of keys would bring and cost.
#[derive(Clone, Copy, Debug, PartialEq, Eq)]
pub struct SimulateSellKeyResponse {
    /// Price of the keys, which the seller receives.
    pub price: u128,
    /// Fee that goes to the issuer.
    pub issuer_fee: u128,
    /// What the seller has to pay: the fee alone.
    pub total_cost: u128,
}

/// One page of the holders' addresses, in ascending order.
#[derive(Clone, Debug, PartialEq, Eq)]
pub struct HoldersResponse {
    pub holders: Vec<String>,
}

/// The keys that one address holds.
#[derive(Clone, Copy, Debug, PartialEq, Eq)]
pub struct HoldingResponse {
    pub amount: u128,
}

/// The answer to a query, one kind for each kind of question.
#[derive(Clone, Debug, PartialEq, Eq)]
pub enum FriendTechAppQueryResponse {
    Issuer(IssuerResponse),
    SimulateBuyKey(SimulateBuyKeyResponse),
    SimulateSellKey(SimulateSellKeyResponse),
    Holders(HoldersResponse),
    Holding(HoldingResponse),
}

/// An order to the bank to move coins from the market to an address.
#[derive(Clone, Debug, PartialEq, Eq)]
pub struct BankSend {
    pub to_address: String,
    pub amount: Coin,
}

/// What a `BankSend` stands for.
pub struct BankSendView {
    pub to_address: Seq<char>,
    pub amount: CoinView,
}

impl View for BankSend {
    type V = BankSendView;

    open spec fn view(&self) -> BankSendView {
        BankSendView { to_address: self.to_address@, amount: self.amount@ }
    }
}

/// The fact that a trade records.
#[derive(Clone, Debug, PartialEq, Eq)]
pub enum TradeEvent {
    BuyKey { buyer: String, amount: u128 },
    SellKey { seller: String, amount: u128 },
}

/// What a `TradeEvent` stands for.
pub enum TradeEventView {
    BuyKey { buyer: Seq<char>, amount: nat },
    SellKey { seller: Seq<char>, amount: nat },
}

impl View for TradeEvent {
    type V = TradeEventView;

    open spec fn view(&self) -> TradeEventView {
        match self {
            TradeEvent::BuyKey { buyer, amount } => TradeEventView::BuyKey {
                buyer: buyer@,
                amount: *amount as nat,
            },
            TradeEvent::SellKey { seller, amount } => TradeEventView::SellKey {
                seller: seller@,
                amount: *amount as nat,
            },
        }
    }
}

/// What a trade that went through asks of its surroundings: the transfers
/// to make, in order, and the fact to record.
#[derive(Clone, Debug, PartialEq, Eq)]
pub struct TradeResponse {
    pub messages: Vec<BankSend>,
    pub event: TradeEvent,
}

/// What a `TradeResponse` stands for.
pub struct TradeResponseView {
    pub messages: Seq<BankSendView>,
    pub event: TradeEventView,
}

impl View for TradeResponse {
    type V = TradeResponseView;

    open spec fn view(&self) -> TradeResponseView {
        TradeResponseView {
            messages: self.messages@.map_values(|m: BankSend| m@),
            event: self.event@,
        }
    }
}

} // verus!
