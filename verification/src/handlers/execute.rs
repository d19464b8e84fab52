//! Trades: buying keys from the market and selling them back.
//!
//! A trade is checked in full before the ledger is touched, so a trade that
//! is turned down leaves no trace.

use crate::error::{FriendTechAppError, FriendTechAppErrorView};
use crate::handlers::query::{query_buy_key_cost, query_sell_key_cost, simulate_buy, simulate_sell};
use crate::msg::{
    BankSend, BankSendView, FriendTechAppExecuteMsg, SimulateBuyKeyResponse,
    SimulateSellKeyResponse, TradeEvent, TradeEventView, TradeResponse, TradeResponseView,
};
use crate::payment::{
    must_pay, payment_of, Coin, CoinView, MessageInfo, MessageInfoView, PaymentErrorView,
};
use crate::pricing::lemma_priced_supply_fits;
use crate::state::{lemma_balance_within_sum, ConfigView, Ledger, LedgerView};
use crate::utils::{get_issuer_addr, issuer_of, owner_view};
use vstd::prelude::*;

verus! {

/// Whether a buy goes through, and at what cost. The checks come in this
/// order: the payment is one coin of the market's denomination; the cost fits
/// in 128 bits; the payment covers the cost. More than the cost may be paid;
/// nothing is given back.
pub open spec fn buy_verdict(ledger: LedgerView, info: MessageInfoView, amount: nat) -> Result<
    SimulateBuyKeyResponse,
    FriendTechAppErrorView,
> {
    match payment_of(info.funds, ledger.config.fee_denom) {
        Err(e) => Err(FriendTechAppErrorView::Payment(e)),
        Ok(paid) => match simulate_buy(ledger.supply, amount) {
            Err(e) => Err(e),
            Ok(cost) => if cost.total_cost > paid {
                Err(
                    FriendTechAppErrorView::InsufficientFunds {
                        required: cost.total_cost as nat,
                        paid,
                    },
                )
            } else {
                Ok(cost)
            },
        },
    }
}

/// Whether a sale goes through, and at what price and cost. The checks come
/// in this order: the account has an owner, who is the issuer; the payment is
/// one coin of the market's denomination; no more keys are sold than are out
/// (else the sale counts as one of more keys than the seller owns); the price
/// fits in 128 bits; the payment covers the fee; the seller owns the keys;
/// the issuer keeps at least one key.
pub open spec fn sell_verdict(
    ledger: LedgerView,
    account_owner: Option<Seq<char>>,
    info: MessageInfoView,
    amount: nat,
) -> Result<SimulateSellKeyResponse, FriendTechAppErrorView> {
    let owned = ledger.balance_of(info.sender);
    match issuer_of(account_owner) {
        Err(e) => Err(e),
        Ok(issuer) => match payment_of(info.funds, ledger.config.fee_denom) {
            Err(e) => Err(FriendTechAppErrorView::Payment(e)),
            Ok(paid) => if amount > ledger.supply {
                Err(FriendTechAppErrorView::CannotSellMoreThanOwned { owned, to_sell: amount })
            } else {
                match simulate_sell(ledger.supply, amount) {
                    Err(e) => Err(e),
                    Ok(cost) => if cost.total_cost > paid {
                        Err(
                            FriendTechAppErrorView::InsufficientFunds {
                                required: cost.total_cost as nat,
                                paid,
                            },
                        )
                    } else if !ledger.holds(info.sender) || amount > owned {
                        Err(
                            FriendTechAppErrorView::CannotSellMoreThanOwned {
                                owned,
                                to_sell: amount,
                            },
                        )
                    } else if info.sender == issuer && amount == owned {
                        Err(FriendTechAppErrorView::IssuerCannotSellLastKey)
                    } else {
                        Ok(cost)
                    },
                }
            },
        },
    }
}

/// An order to send `amount` of the market's denomination to `to_address`.
pub open spec fn send_order(config: ConfigView, to_address: Seq<char>, amount: nat)
    -> BankSendView {
    BankSendView { to_address, amount: CoinView { denom: config.fee_denom, amount } }
}

/// What a buy asks of its surroundings: the fee goes to the fee collector.
/// The price stays with the market.
pub open spec fn buy_response(
    config: ConfigView,
    buyer: Seq<char>,
    amount: nat,
    cost: SimulateBuyKeyResponse,
) -> TradeResponseView {
    TradeResponseView {
        messages: seq![send_order(config, config.issuer_fee_collector, cost.issuer_fee as nat)],
        event: TradeEventView::BuyKey { buyer, amount },
    }
}

/// What a sale asks of its surroundings: the fee goes to the fee collector,
/// then the price goes to the seller.
pub open spec fn sell_response(
    config: ConfigView,
    seller: Seq<char>,
    amount: nat,
    cost: SimulateSellKeyResponse,
) -> TradeResponseView {
    TradeResponseView {
        messages: seq![
            send_order(config, config.issuer_fee_collector, cost.issuer_fee as nat),
            send_order(config, seller, cost.price as nat),
        ],
        event: TradeEventView::SellKey { seller, amount },
    }
}

/// What a buy of `amount` keys by the sender of `info` makes of the ledger
/// `before`: turned down, it leaves the ledger as it was; else the supply and
/// the buyer's holding grow by `amount` and nothing else changes.
pub open spec fn bought(
    before: LedgerView,
    info: MessageInfoView,
    amount: nat,
    after: LedgerView,
    outcome: Result<TradeResponse, FriendTechAppError>,
) -> bool {
    match buy_verdict(before, info, amount) {
        Err(e) => outcome is Err && outcome->Err_0@ == e && after == before,
        Ok(cost) => {
            &&& outcome is Ok
            &&& outcome->Ok_0@ == buy_response(before.config, info.sender, amount, cost)
            &&& after.config == before.config
            &&& after.supply == before.supply + amount
            &&& forall|a: Seq<char>|
                #[trigger] after.balance_of(a) == before.balance_of(a) + (if a == info.sender {
                    amount
                } else {
                    0
                })
        },
    }
}

/// What a sale of `amount` keys by the sender of `info` makes of the ledger
/// `before`: turned down, it leaves the ledger as it was; else the supply and
/// the seller's holding shrink by `amount` and nothing else changes.
pub open spec fn sold(
    before: LedgerView,
    account_owner: Option<Seq<char>>,
    info: MessageInfoView,
    amount: nat,
    after: LedgerView,
    outcome: Result<TradeResponse, FriendTechAppError>,
) -> bool {
    match sell_verdict(before, account_owner, info, amount) {
        Err(e) => outcome is Err && outcome->Err_0@ == e && after == before,
        Ok(cost) => {
            &&& outcome is Ok
            &&& outcome->Ok_0@ == sell_response(before.config, info.sender, amount, cost)
            &&& after.config == before.config
            &&& after.supply == before.supply - amount
            &&& forall|a: Seq<char>|
                #[trigger] after.balance_of(a) == before.balance_of(a) - (if a == info.sender {
                    amount
                } else {
                    0
                })
        },
    }
}

/// A buyer who pays less than price and fee together is told what is
/// required and what was paid; by `bought`, the ledger then stays as it was.
pub proof fn lemma_underpaid_buy_is_refused(
    ledger: LedgerView,
    info: MessageInfoView,
    amount: nat,
    paid: nat,
)
    requires
        payment_of(info.funds, ledger.config.fee_denom) == Ok::<nat, PaymentErrorView>(paid),
        simulate_buy(ledger.supply, amount) is Ok,
        paid < simulate_buy(ledger.supply, amount)->Ok_0.total_cost,
    ensures
        buy_verdict(ledger, info, amount) == Err::<
            SimulateBuyKeyResponse,
            FriendTechAppErrorView,
        >(
            FriendTechAppErrorView::InsufficientFunds {
                required: simulate_buy(ledger.supply, amount)->Ok_0.total_cost as nat,
                paid,
            },
        ),
{
}

/// A sale of more keys than the seller owns is refused, and the refusal
/// names what the seller owns. This holds of every seller, the issuer too,
/// once the account has an owner and the payment is in order: either more
/// keys are sold than are out, or the price can be named and the fee is
/// covered.
pub proof fn lemma_oversell_reports_owned(
    ledger: LedgerView,
    account_owner: Option<Seq<char>>,
    info: MessageInfoView,
    amount: nat,
    paid: nat,
)
    requires
        account_owner is Some,
        payment_of(info.funds, ledger.config.fee_denom) == Ok::<nat, PaymentErrorView>(paid),
        amount > ledger.balance_of(info.sender),
        amount > ledger.supply || (simulate_sell(ledger.supply, amount) is Ok && simulate_sell(
            ledger.supply,
            amount,
        )->Ok_0.total_cost <= paid),
    ensures
        sell_verdict(ledger, account_owner, info, amount) == Err::<
            SimulateSellKeyResponse,
            FriendTechAppErrorView,
        >(
            FriendTechAppErrorView::CannotSellMoreThanOwned {
                owned: ledger.balance_of(info.sender),
                to_sell: amount,
            },
        ),
{
}

/// The issuer cannot sell all the keys it owns, so it never sells its last
/// one: such a sale, paid for, is refused for that reason.
pub proof fn lemma_issuer_keeps_last_key(
    ledger: LedgerView,
    account_owner: Option<Seq<char>>,
    info: MessageInfoView,
    amount: nat,
    paid: nat,
)
    requires
        account_owner == Some(info.sender),
        payment_of(info.funds, ledger.config.fee_denom) == Ok::<nat, PaymentErrorView>(paid),
        ledger.holds(info.sender),
        amount == ledger.balance_of(info.sender),
        amount <= ledger.supply,
        simulate_sell(ledger.supply, amount) is Ok,
        simulate_sell(ledger.supply, amount)->Ok_0.total_cost <= paid,
    ensures
        sell_verdict(ledger, account_owner, info, amount) == Err::<
            SimulateSellKeyResponse,
            FriendTechAppErrorView,
        >(FriendTechAppErrorView::IssuerCannotSellLastKey),
{
}

/// The issuer may sell keys as long as one stays with it, and anyone else
/// may sell all it owns: such a sale, paid for, goes through.
pub proof fn lemma_spare_keys_can_be_sold(
    ledger: LedgerView,
    account_owner: Option<Seq<char>>,
    info: MessageInfoView,
    amount: nat,
    paid: nat,
)
    requires
        account_owner is Some,
        payment_of(info.funds, ledger.config.fee_denom) == Ok::<nat, PaymentErrorView>(paid),
        ledger.holds(info.sender),
        amount <= ledger.balance_of(info.sender),
        account_owner == Some(info.sender) ==> amount < ledger.balance_of(info.sender),
        amount <= ledger.supply,
        simulate_sell(ledger.supply, amount) is Ok,
        simulate_sell(ledger.supply, amount)->Ok_0.total_cost <= paid,
    ensures
        sell_verdict(ledger, account_owner, info, amount) == simulate_sell(ledger.supply, amount),
{
}

/// Buys `amount` keys for the sender of `info`, who pays with the funds of
/// `info`. The accounts stay in order: afterwards, too, the supply is the sum
/// of the holdings and nobody is listed with zero keys.
pub fn buy_key(ledger: &mut Ledger, info: &MessageInfo, amount: u128) -> (outcome: Result<
    TradeResponse,
    FriendTechAppError,
>)
    requires
        old(ledger)@.well_formed(),
    ensures
        final(ledger)@.well_formed(),
        bought(old(ledger)@, info@, amount as nat, final(ledger)@, outcome),
{
    let fee_denom: String = ledger.load_config().fee_denom.clone();
    let collector: String = ledger.load_config().issuer_fee_collector.clone();
    let paid: u128 = match must_pay(info, fee_denom.as_str()) {
        Ok(paid) => paid,
        Err(e) => {
            return Err(FriendTechAppError::Payment(e));
        },
    };
    let cost: SimulateBuyKeyResponse = match query_buy_key_cost(ledger, amount) {
        Ok(cost) => cost,
        Err(e) => {
            return Err(e);
        },
    };
    if cost.total_cost > paid {
        return Err(FriendTechAppError::InsufficientFunds { required: cost.total_cost, paid });
    }
    let old_supply: u128 = ledger.load_supply();
    proof {
        lemma_priced_supply_fits(old_supply as nat, amount as nat);
        lemma_balance_within_sum(ledger@.holders, info@.sender);
    }
    if amount > 0 {
        let old_amount: u128 = match ledger.may_load_holder(&info.sender) {
            Some(held) => held,
            None => 0,
        };
        ledger.save_supply(old_supply + amount);
        ledger.save_holder(&info.sender, old_amount + amount);
    }
    let mut messages: Vec<BankSend> = Vec::new();
    messages.push(
        BankSend { to_address: collector, amount: Coin { denom: fee_denom, amount: cost.issuer_fee } },
    );
    let response = TradeResponse {
        messages,
        event: TradeEvent::BuyKey { buyer: info.sender.clone(), amount },
    };
    proof {
        assert(response@.messages =~= buy_response(
            old(ledger)@.config,
            info@.sender,
            amount as nat,
            cost,
        ).messages);
    }
    Ok(response)
}

/// Sells `amount` keys of the sender of `info`, who pays the fee with the
/// funds of `info`. `account_owner` is the owner of the account that the
/// market belongs to, if it has one. The accounts stay in order.
pub fn sell_key(
    ledger: &mut Ledger,
    info: &MessageInfo,
    amount: u128,
    account_owner: Option<String>,
) -> (outcome: Result<TradeResponse, FriendTechAppError>)
    requires
        old(ledger)@.well_formed(),
    ensures
        final(ledger)@.well_formed(),
        sold(old(ledger)@, owner_view(account_owner), info@, amount as nat, final(ledger)@, outcome),
{
    let issuer: String = match get_issuer_addr(account_owner) {
        Ok(issuer) => issuer,
        Err(e) => {
            return Err(e);
        },
    };
    let fee_denom: String = ledger.load_config().fee_denom.clone();
    let collector: String = ledger.load_config().issuer_fee_collector.clone();
    let paid: u128 = match must_pay(info, fee_denom.as_str()) {
        Ok(paid) => paid,
        Err(e) => {
            return Err(FriendTechAppError::Payment(e));
        },
    };
    let held: Option<u128> = ledger.may_load_holder(&info.sender);
    let old_supply: u128 = ledger.load_supply();
    if amount > old_supply {
        let owned: u128 = match held {
            Some(owned) => owned,
            None => 0,
        };
        return Err(FriendTechAppError::CannotSellMoreThanOwned { owned, to_sell: amount });
    }
    let cost: SimulateSellKeyResponse = match query_sell_key_cost(ledger, amount) {
        Ok(cost) => cost,
        Err(e) => {
            return Err(e);
        },
    };
    if cost.total_cost > paid {
        return Err(FriendTechAppError::InsufficientFunds { required: cost.total_cost, paid });
    }
    let old_amount: u128 = match held {
        Some(owned) => owned,
        None => {
            return Err(FriendTechAppError::CannotSellMoreThanOwned { owned: 0, to_sell: amount });
        },
    };
    if amount > old_amount {
        return Err(
            FriendTechAppError::CannotSellMoreThanOwned { owned: old_amount, to_sell: amount },
        );
    }
    if info.sender == issuer && amount == old_amount {
        return Err(FriendTechAppError::IssuerCannotSellLastKey {  });
    }
    if amount > 0 {
        ledger.save_supply(old_supply - amount);
        if old_amount == amount {
            ledger.remove_holder(&info.sender);
        } else {
            ledger.save_holder(&info.sender, old_amount - amount);
        }
    }
    let mut messages: Vec<BankSend> = Vec::new();
    messages.push(
        BankSend {
            to_address: collector,
            amount: Coin { denom: fee_denom.clone(), amount: cost.issuer_fee },
        },
    );
    messages.push(
        BankSend {
            to_address: info.sender.clone(),
            amount: Coin { denom: fee_denom, amount: cost.price },
        },
    );
    let response = TradeResponse {
        messages,
        event: TradeEvent::SellKey { seller: info.sender.clone(), amount },
    };
    proof {
        assert(response@.messages =~= sell_response(
            old(ledger)@.config,
            info@.sender,
            amount as nat,
            cost,
        ).messages);
    }
    Ok(response)
}

/// Carries out a trade: a buy or a sale, as the message says.
pub fn execute_handler(
    ledger: &mut Ledger,
    info: &MessageInfo,
    account_owner: Option<String>,
    msg: FriendTechAppExecuteMsg,
) -> (outcome: Result<TradeResponse, FriendTechAppError>)
    requires
        old(ledger)@.well_formed(),
    ensures
        final(ledger)@.well_formed(),
        match msg {
            FriendTechAppExecuteMsg::BuyKey { amount } => bought(
                old(ledger)@,
                info@,
                amount as nat,
                final(ledger)@,
                outcome,
            ),
            FriendTechAppExecuteMsg::SellKey { amount } => sold(
                old(ledger)@,
                owner_view(account_owner),
                info@,
                amount as nat,
                final(ledger)@,
                outcome,
            ),
        },
{
    match msg {
        FriendTechAppExecuteMsg::BuyKey { amount } => buy_key(ledger, info, amount),
        FriendTechAppExecuteMsg::SellKey { amount } => sell_key(ledger, info, amount, account_owner),
    }
}

} // verus!
