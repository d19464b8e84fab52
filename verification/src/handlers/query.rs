//! The answers that the market gives without changing.

use crate::error::{FriendTechAppError, FriendTechAppErrorView};
use crate::msg::{
    FriendTechAppQueryMsg, FriendTechAppQueryResponse, HoldersResponse, HoldingResponse,
    IssuerResponse, SimulateBuyKeyResponse, SimulateSellKeyResponse,
};
use crate::paging::{
    cursor_view, holders_page, page_size, texts, DEFAULT_QUERY_LIMIT, MAX_QUERY_LIMIT,
};
use crate::pricing::{
    buy_price, calculate_price, multiply_percentage, percentage_of, sell_price,
    ISSUER_FEE_PERCENTAGE,
};
use crate::state::Ledger;
use crate::utils::error_view;
use vstd::prelude::*;

verus! {

/// What buying `amount` keys costs when `supply` are out: the price, the
/// issuer's fee on it, and both together. It is an overflow where the buyer's
/// cost does not fit in 128 bits.
pub open spec fn simulate_buy(supply: nat, amount: nat) -> Result<
    SimulateBuyKeyResponse,
    FriendTechAppErrorView,
> {
    let price = buy_price(supply, amount);
    let issuer_fee = percentage_of(price, ISSUER_FEE_PERCENTAGE as nat);
    if price + issuer_fee > u128::MAX {
        Err(FriendTechAppErrorView::Overflow)
    } else {
        Ok(
            SimulateBuyKeyResponse {
                price: price as u128,
                issuer_fee: issuer_fee as u128,
                total_cost: (price + issuer_fee) as u128,
            },
        )
    }
}

/// What selling `amount` keys brings and costs when `supply` are out: the
/// price, the issuer's fee on it, and as the seller's cost the fee alone. It
/// is an overflow where more keys are sold than are out, or where the price
/// does not fit in 128 bits.
pub open spec fn simulate_sell(supply: nat, amount: nat) -> Result<
    SimulateSellKeyResponse,
    FriendTechAppErrorView,
> {
    let price = sell_price(supply, amount);
    let issuer_fee = percentage_of(price, ISSUER_FEE_PERCENTAGE as nat);
    if amount > supply || price > u128::MAX {
        Err(FriendTechAppErrorView::Overflow)
    } else {
        Ok(
            SimulateSellKeyResponse {
                price: price as u128,
                issuer_fee: issuer_fee as u128,
                total_cost: issuer_fee as u128,
            },
        )
    }
}

/// The market's configuration and supply.
pub fn query_issuer(ledger: &Ledger) -> (response: IssuerResponse)
    ensures
        response.username@ == ledger@.config.username,
        response.fee_denom@ == ledger@.config.fee_denom,
        response.issuer_fee_collector@ == ledger@.config.issuer_fee_collector,
        response.supply == ledger@.supply,
{
    let config = ledger.load_config();
    let supply: u128 = ledger.load_supply();
    IssuerResponse {
        username: config.username.clone(),
        fee_denom: config.fee_denom.clone(),
        issuer_fee_collector: config.issuer_fee_collector.clone(),
        supply,
    }
}

/// What buying `amount` keys would cost now. The ledger does not change.
pub fn query_buy_key_cost(ledger: &Ledger, amount: u128) -> (cost: Result<
    SimulateBuyKeyResponse,
    FriendTechAppError,
>)
    ensures
        error_view(cost) == simulate_buy(ledger@.supply, amount as nat),
{
    let old_supply: u128 = ledger.load_supply();
    let price: u128 = match calculate_price(old_supply, amount) {
        Some(price) => price,
        None => {
            return Err(FriendTechAppError::Overflow {  });
        },
    };
    let issuer_fee: u128 = multiply_percentage(price, ISSUER_FEE_PERCENTAGE);
    match price.checked_add(issuer_fee) {
        Some(total_cost) => Ok(SimulateBuyKeyResponse { price, issuer_fee, total_cost }),
        None => Err(FriendTechAppError::Overflow {  }),
    }
}

/// What selling `amount` keys would bring and cost now. The ledger does not
/// change.
pub fn query_sell_key_cost(ledger: &Ledger, amount: u128) -> (cost: Result<
    SimulateSellKeyResponse,
    FriendTechAppError,
>)
    ensures
        error_view(cost) == simulate_sell(ledger@.supply, amount as nat),
{
    let old_supply: u128 = ledger.load_supply();
    if amount > old_supply {
        return Err(FriendTechAppError::Overflow {  });
    }
    let price: u128 = match calculate_price(old_supply - amount, amount) {
        Some(price) => price,
        None => {
            return Err(FriendTechAppError::Overflow {  });
        },
    };
    let issuer_fee: u128 = multiply_percentage(price, ISSUER_FEE_PERCENTAGE);
    Ok(SimulateSellKeyResponse { price, issuer_fee, total_cost: issuer_fee })
}


/// One page of the holders' addresses, in ascending order: those after
/// `start_after`, or from the first where there is no cursor; as many as
/// `limit` asks for, ten where it asks for nothing, and never more than
/// thirty.
pub fn query_holders(ledger: &Ledger, limit: Option<u32>, start_after: Option<String>) -> (response:
    HoldersResponse)
    ensures
        texts(response.holders@) == holders_page(
            ledger@.holders,
            cursor_view(start_after),
            page_size(limit),
        ),
{
    let asked: u32 = match limit {
        Some(n) => n,
        None => DEFAULT_QUERY_LIMIT,
    };
    let size: u32 = if asked <= MAX_QUERY_LIMIT {
        asked
    } else {
        MAX_QUERY_LIMIT
    };
    HoldersResponse { holders: ledger.range_holders(&start_after, size as usize) }
}

/// The keys that `holder` holds: zero for an address that holds none.
pub fn query_holding(ledger: &Ledger, holder: String) -> (response: HoldingResponse)
    requires
        ledger@.well_formed(),
    ensures
        response.amount == ledger@.balance_of(holder@),
{
    let amount: u128 = match ledger.may_load_holder(&holder) {
        Some(held) => held,
        None => 0,
    };
    HoldingResponse { amount }
}

/// Whether `response` answers `msg` on `ledger`: it is the answer of the
/// query that the message names.
pub open spec fn answers(
    ledger: &Ledger,
    msg: FriendTechAppQueryMsg,
    response: Result<FriendTechAppQueryResponse, FriendTechAppError>,
) -> bool {
    match msg {
        FriendTechAppQueryMsg::Issuer {  } => {
            &&& response matches Ok(FriendTechAppQueryResponse::Issuer(issuer))
            &&& issuer.username@ == ledger@.config.username
            &&& issuer.fee_denom@ == ledger@.config.fee_denom
            &&& issuer.issuer_fee_collector@ == ledger@.config.issuer_fee_collector
            &&& issuer.supply == ledger@.supply
        },
        FriendTechAppQueryMsg::SimulateBuyKey { amount } => match simulate_buy(
            ledger@.supply,
            amount as nat,
        ) {
            Ok(cost) => response == Ok::<FriendTechAppQueryResponse, FriendTechAppError>(
                FriendTechAppQueryResponse::SimulateBuyKey(cost),
            ),
            Err(e) => response is Err && response->Err_0@ == e,
        },
        FriendTechAppQueryMsg::SimulateSellKey { amount } => match simulate_sell(
            ledger@.supply,
            amount as nat,
        ) {
            Ok(cost) => response == Ok::<FriendTechAppQueryResponse, FriendTechAppError>(
                FriendTechAppQueryResponse::SimulateSellKey(cost),
            ),
            Err(e) => response is Err && response->Err_0@ == e,
        },
        FriendTechAppQueryMsg::Holders { limit, start_after } => {
            &&& response matches Ok(FriendTechAppQueryResponse::Holders(page))
            &&& texts(page.holders@) == holders_page(
                ledger@.holders,
                cursor_view(start_after),
                page_size(limit),
            )
        },
        FriendTechAppQueryMsg::Holding { holder } => {
            &&& response matches Ok(FriendTechAppQueryResponse::Holding(holding))
            &&& holding.amount == ledger@.balance_of(holder@)
        },
    }
}

/// Answers a query. The ledger does not change.
pub fn query_handler(ledger: &Ledger, msg: FriendTechAppQueryMsg) -> (response: Result<
    FriendTechAppQueryResponse,
    FriendTechAppError,
>)
    requires
        ledger@.well_formed(),
    ensures
        answers(ledger, msg, response),
{
    match msg {
        FriendTechAppQueryMsg::Issuer {  } => Ok(
            FriendTechAppQueryResponse::Issuer(query_issuer(ledger)),
        ),
        FriendTechAppQueryMsg::SimulateBuyKey { amount } => match query_buy_key_cost(
            ledger,
            amount,
        ) {
            Ok(cost) => Ok(FriendTechAppQueryResponse::SimulateBuyKey(cost)),
            Err(e) => Err(e),
        },
        FriendTechAppQueryMsg::SimulateSellKey { amount } => match query_sell_key_cost(
            ledger,
            amount,
        ) {
            Ok(cost) => Ok(FriendTechAppQueryResponse::SimulateSellKey(cost)),
            Err(e) => Err(e),
        },
        FriendTechAppQueryMsg::Holders { limit, start_after } => Ok(
            FriendTechAppQueryResponse::Holders(query_holders(ledger, limit, start_after)),
        ),
        FriendTechAppQueryMsg::Holding { holder } => Ok(
            FriendTechAppQueryResponse::Holding(query_holding(ledger, holder)),
        ),
    }
}

} // verus!
