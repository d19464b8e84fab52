use friend_tech_app::error::FriendTechAppError;
use friend_tech_app::handlers::execute::{buy_key, execute_handler, sell_key};
use friend_tech_app::handlers::instantiate::instantiate_handler;
use friend_tech_app::handlers::query::{
    query_buy_key_cost, query_handler, query_holders, query_holding, query_issuer,
    query_sell_key_cost,
};
use friend_tech_app::msg::{
    BankSend, FriendTechAppExecuteMsg, FriendTechAppInstantiateMsg, FriendTechAppQueryMsg,
    FriendTechAppQueryResponse, HoldersResponse, HoldingResponse, SimulateBuyKeyResponse,
    SimulateSellKeyResponse, TradeEvent, TradeResponse,
};
use friend_tech_app::payment::{Coin, MessageInfo, PaymentError};
use friend_tech_app::pricing::calculate_price;
use friend_tech_app::state::{Config, Holder, Ledger};
use friend_tech_app::utils::get_issuer_addr;

const DENOM: &str = "ukey";

const ISSUER: &str = "issuer";

const COLLECTOR: &str = "collector";

fn market() -> Ledger {
    instantiate_handler(
        Some(ISSUER.to_string()),
        FriendTechAppInstantiateMsg {
            username: "ada".to_string(),
            issuer_fee_collector: COLLECTOR.to_string(),
            fee_denom: DENOM.to_string(),
        },
    )
    .unwrap()
}

fn paying(sender: &str, amount: u128) -> MessageInfo {
    MessageInfo {
        sender: sender.to_string(),
        funds: vec![Coin { denom: DENOM.to_string(), amount }],
    }
}

fn owner() -> Option<String> {
    Some(ISSUER.to_string())
}

fn send(to: &str, amount: u128) -> BankSend {
    BankSend { to_address: to.to_string(), amount: Coin { denom: DENOM.to_string(), amount } }
}

/// All holders, page by page, with what each holds.
fn holdings(ledger: &Ledger) -> Vec<(String, u128)> {
    let mut all = Vec::new();
    let mut cursor: Option<String> = None;
    loop {
        let page = query_holders(ledger, Some(30), cursor.clone()).holders;
        if page.is_empty() {
            return all;
        }
        for address in &page {
            all.push((address.clone(), query_holding(ledger, address.clone()).amount));
        }
        cursor = page.last().cloned();
    }
}

/// The accounts are in order: the supply is the sum of the holdings, and
/// nobody is listed with zero keys.
fn assert_balanced(ledger: &Ledger) {
    let all = holdings(ledger);
    assert_eq!(query_issuer(ledger).supply, all.iter().map(|(_, held)| *held).sum::<u128>());
    assert!(all.iter().all(|(_, held)| *held > 0));
    assert!(all.windows(2).all(|pair| pair[0].0 < pair[1].0));
}

#[test]
fn market_without_owner_is_not_set_up() {
    let made = instantiate_handler(
        None,
        FriendTechAppInstantiateMsg {
            username: "ada".to_string(),
            issuer_fee_collector: COLLECTOR.to_string(),
            fee_denom: DENOM.to_string(),
        },
    );
    assert_eq!(made.unwrap_err(), FriendTechAppError::AccountOwnerMustBeSetToIssueKey {});
}

#[test]
fn issuer_is_the_account_owner() {
    assert_eq!(get_issuer_addr(Some("ada".to_string())), Ok("ada".to_string()));
    assert_eq!(
        get_issuer_addr(None),
        Err(FriendTechAppError::AccountOwnerMustBeSetToIssueKey {})
    );
}

#[test]
fn buy_ten_then_sell_five() {
    let mut ledger = market();

    let bought = buy_key(&mut ledger, &paying("buyer", 252_656), 10).unwrap();
    assert_eq!(
        bought,
        TradeResponse {
            messages: vec![send(COLLECTOR, 12_031)],
            event: TradeEvent::BuyKey { buyer: "buyer".to_string(), amount: 10 },
        }
    );
    assert_eq!(query_issuer(&ledger).supply, 11);
    assert_eq!(query_holding(&ledger, "buyer".to_string()).amount, 10);
    assert_eq!(query_holding(&ledger, ISSUER.to_string()).amount, 1);

    assert_eq!(
        query_sell_key_cost(&ledger, 5),
        Ok(SimulateSellKeyResponse { price: 206_250, issuer_fee: 10_312, total_cost: 10_312 })
    );
    let sold = sell_key(&mut ledger, &paying("buyer", 10_312), 5, owner()).unwrap();
    assert_eq!(
        sold,
        TradeResponse {
            messages: vec![send(COLLECTOR, 10_312), send("buyer", 206_250)],
            event: TradeEvent::SellKey { seller: "buyer".to_string(), amount: 5 },
        }
    );
    assert_eq!(query_issuer(&ledger).supply, 6);
    assert_eq!(query_holding(&ledger, "buyer".to_string()).amount, 5);
    assert_balanced(&ledger);
}

#[test]
fn buy_cost_is_price_plus_fee_and_sell_cost_is_the_fee() {
    let ledger = market();
    assert_eq!(
        query_buy_key_cost(&ledger, 10),
        Ok(SimulateBuyKeyResponse { price: 240_625, issuer_fee: 12_031, total_cost: 252_656 })
    );
    assert_eq!(
        query_sell_key_cost(&ledger, 1),
        Ok(SimulateSellKeyResponse { price: 0, issuer_fee: 0, total_cost: 0 })
    );
    assert_eq!(
        query_buy_key_cost(&ledger, 0),
        Ok(SimulateBuyKeyResponse { price: 0, issuer_fee: 0, total_cost: 0 })
    );
}

#[test]
fn simulation_does_not_change_the_ledger() {
    let ledger = market();
    let before = holdings(&ledger);
    query_buy_key_cost(&ledger, 10).unwrap();
    query_sell_key_cost(&ledger, 1).unwrap();
    assert_eq!(holdings(&ledger), before);
    assert_eq!(query_issuer(&ledger).supply, 1);
}

#[test]
fn cost_beyond_128_bits_is_an_overflow() {
    let mut ledger = market();
    assert_eq!(query_buy_key_cost(&ledger, u128::MAX), Err(FriendTechAppError::Overflow {}));
    assert_eq!(query_sell_key_cost(&ledger, 2), Err(FriendTechAppError::Overflow {}));
    assert_eq!(
        buy_key(&mut ledger, &paying("buyer", u128::MAX), 1 << 60),
        Err(FriendTechAppError::Overflow {})
    );
    assert_eq!(holdings(&ledger), vec![(ISSUER.to_string(), 1)]);
    assert_eq!(query_issuer(&ledger).supply, 1);
}

#[test]
fn price_that_fits_with_a_fee_that_does_not_is_an_overflow() {
    let config = Config {
        username: "ada".to_string(),
        fee_denom: DENOM.to_string(),
        issuer_fee_collector: COLLECTOR.to_string(),
    };
    let supply: u128 = 737_869_762_948_382_064;
    let ledger =
        Ledger::restore(config, supply, vec![Holder { address: ISSUER.to_string(), amount: supply }])
            .unwrap();
    assert_eq!(calculate_price(supply, 1), Some(supply * supply * 625));
    // the price of the next key fits, price and fee together do not
    assert_eq!(query_buy_key_cost(&ledger, 1), Err(FriendTechAppError::Overflow {}));
}

#[test]
fn underpayment_by_one_is_refused_and_changes_nothing() {
    let mut ledger = market();
    let required = query_buy_key_cost(&ledger, 10).unwrap().total_cost;
    assert_eq!(required, 252_656);
    let refused = buy_key(&mut ledger, &paying("buyer", required - 1), 10);
    assert_eq!(
        refused,
        Err(FriendTechAppError::InsufficientFunds { required, paid: required - 1 })
    );
    assert_eq!(query_issuer(&ledger).supply, 1);
    assert_eq!(holdings(&ledger), vec![(ISSUER.to_string(), 1)]);
    assert_eq!(query_holding(&ledger, "buyer".to_string()).amount, 0);
}

#[test]
fn overpayment_is_taken_without_refund() {
    let mut ledger = market();
    let bought = buy_key(&mut ledger, &paying("buyer", 1_000_000), 10).unwrap();
    assert_eq!(bought.messages, vec![send(COLLECTOR, 12_031)]);
    assert_eq!(query_holding(&ledger, "buyer".to_string()).amount, 10);
}

#[test]
fn underpaid_sale_is_refused_and_changes_nothing() {
    let mut ledger = market();
    buy_key(&mut ledger, &paying("buyer", 252_656), 10).unwrap();
    let refused = sell_key(&mut ledger, &paying("buyer", 10_311), 5, owner());
    assert_eq!(
        refused,
        Err(FriendTechAppError::InsufficientFunds { required: 10_312, paid: 10_311 })
    );
    assert_eq!(query_issuer(&ledger).supply, 11);
    assert_eq!(query_holding(&ledger, "buyer".to_string()).amount, 10);
}

#[test]
fn payment_must_be_one_coin_of_the_denomination() {
    let mut ledger = market();
    let nothing = MessageInfo { sender: "buyer".to_string(), funds: vec![] };
    assert_eq!(
        buy_key(&mut ledger, &nothing, 1),
        Err(FriendTechAppError::Payment(PaymentError::NoFunds))
    );
    let zero = paying("buyer", 0);
    assert_eq!(
        buy_key(&mut ledger, &zero, 0),
        Err(FriendTechAppError::Payment(PaymentError::NoFunds))
    );
    let other = MessageInfo {
        sender: "buyer".to_string(),
        funds: vec![Coin { denom: "uother".to_string(), amount: 1_000_000 }],
    };
    assert_eq!(
        buy_key(&mut ledger, &other, 1),
        Err(FriendTechAppError::Payment(PaymentError::MissingDenom(DENOM.to_string())))
    );
    let two = MessageInfo {
        sender: "buyer".to_string(),
        funds: vec![
            Coin { denom: DENOM.to_string(), amount: 1_000_000 },
            Coin { denom: "uother".to_string(), amount: 1 },
        ],
    };
    assert_eq!(
        buy_key(&mut ledger, &two, 1),
        Err(FriendTechAppError::Payment(PaymentError::MultipleDenoms))
    );
    assert_eq!(
        sell_key(&mut ledger, &other, 1, owner()),
        Err(FriendTechAppError::Payment(PaymentError::MissingDenom(DENOM.to_string())))
    );
    assert_eq!(holdings(&ledger), vec![(ISSUER.to_string(), 1)]);
}

#[test]
fn sale_needs_an_account_owner_before_anything_else() {
    let mut ledger = market();
    let nothing = MessageInfo { sender: "buyer".to_string(), funds: vec![] };
    assert_eq!(
        sell_key(&mut ledger, &nothing, 1, None),
        Err(FriendTechAppError::AccountOwnerMustBeSetToIssueKey {})
    );
    // a buy asks for no owner
    assert!(buy_key(&mut ledger, &paying("buyer", 656), 1).is_ok());
}

#[test]
fn issuer_cannot_sell_its_last_key() {
    let mut ledger = market();
    assert_eq!(
        sell_key(&mut ledger, &paying(ISSUER, 1), 1, owner()),
        Err(FriendTechAppError::IssuerCannotSellLastKey {})
    );
    assert_eq!(holdings(&ledger), vec![(ISSUER.to_string(), 1)]);

    // with more keys out it still cannot sell all of its own
    buy_key(&mut ledger, &paying("buyer", 252_656), 10).unwrap();
    buy_key(&mut ledger, &paying(ISSUER, 10_000_000), 2).unwrap();
    assert_eq!(
        sell_key(&mut ledger, &paying(ISSUER, 10_000_000), 3, owner()),
        Err(FriendTechAppError::IssuerCannotSellLastKey {})
    );
    assert_eq!(query_holding(&ledger, ISSUER.to_string()).amount, 3);
}

#[test]
fn issuer_can_sell_a_key_that_is_not_its_last() {
    let mut ledger = market();
    buy_key(&mut ledger, &paying(ISSUER, 10_000_000), 2).unwrap();
    assert_eq!(query_holding(&ledger, ISSUER.to_string()).amount, 3);
    let sold = sell_key(&mut ledger, &paying(ISSUER, 10_000_000), 2, owner()).unwrap();
    // keys 1 and 2 cost 1 + 4 units
    assert_eq!(sold.messages, vec![send(COLLECTOR, 156), send(ISSUER, 3_125)]);
    assert_eq!(query_holding(&ledger, ISSUER.to_string()).amount, 1);
    assert_eq!(query_issuer(&ledger).supply, 1);
    assert_balanced(&ledger);
}

#[test]
fn selling_more_than_owned_reports_what_is_owned() {
    let mut ledger = market();
    buy_key(&mut ledger, &paying("buyer", 252_656), 10).unwrap();
    buy_key(&mut ledger, &paying("other", 100_000_000), 5).unwrap();

    assert_eq!(
        sell_key(&mut ledger, &paying("buyer", 100_000_000), 11, owner()),
        Err(FriendTechAppError::CannotSellMoreThanOwned { owned: 10, to_sell: 11 })
    );
    // the issuer, too, is told that it sells too much, not that it sells its last key
    assert_eq!(
        sell_key(&mut ledger, &paying(ISSUER, 100_000_000), 2, owner()),
        Err(FriendTechAppError::CannotSellMoreThanOwned { owned: 1, to_sell: 2 })
    );
    // somebody who holds nothing
    assert_eq!(
        sell_key(&mut ledger, &paying("nobody", 100_000_000), 1, owner()),
        Err(FriendTechAppError::CannotSellMoreThanOwned { owned: 0, to_sell: 1 })
    );
    assert_eq!(
        sell_key(&mut ledger, &paying("nobody", 100_000_000), 0, owner()),
        Err(FriendTechAppError::CannotSellMoreThanOwned { owned: 0, to_sell: 0 })
    );
    // more than are out at all
    assert_eq!(
        sell_key(&mut ledger, &paying("buyer", 1), 17, owner()),
        Err(FriendTechAppError::CannotSellMoreThanOwned { owned: 10, to_sell: 17 })
    );
    assert_eq!(query_issuer(&ledger).supply, 16);
    assert_balanced(&ledger);
}

#[test]
fn holder_who_sells_everything_leaves_the_listing() {
    let mut ledger = market();
    buy_key(&mut ledger, &paying("buyer", 252_656), 10).unwrap();
    sell_key(&mut ledger, &paying("buyer", 252_656), 10, owner()).unwrap();
    assert_eq!(holdings(&ledger), vec![(ISSUER.to_string(), 1)]);
    assert_eq!(query_holding(&ledger, "buyer".to_string()), HoldingResponse { amount: 0 });
    assert_eq!(query_issuer(&ledger).supply, 1);
}

#[test]
fn round_trip_pays_back_the_price_of_the_buy() {
    let mut ledger = market();
    buy_key(&mut ledger, &paying("first", 100_000_000), 4).unwrap();
    let cost = query_buy_key_cost(&ledger, 7).unwrap();
    buy_key(&mut ledger, &paying("buyer", cost.total_cost), 7).unwrap();
    let back = query_sell_key_cost(&ledger, 7).unwrap();
    assert_eq!(back.price, cost.price);
    assert_eq!(back.issuer_fee, cost.issuer_fee);
    assert_eq!(back.total_cost, cost.issuer_fee);
}

#[test]
fn buying_no_key_changes_nothing() {
    let mut ledger = market();
    let bought = buy_key(&mut ledger, &paying("buyer", 1), 0).unwrap();
    assert_eq!(
        bought,
        TradeResponse {
            messages: vec![send(COLLECTOR, 0)],
            event: TradeEvent::BuyKey { buyer: "buyer".to_string(), amount: 0 },
        }
    );
    assert_eq!(holdings(&ledger), vec![(ISSUER.to_string(), 1)]);
    assert_eq!(query_issuer(&ledger).supply, 1);
    assert_eq!(query_holders(&ledger, None, None).holders, vec![ISSUER.to_string()]);
}

#[test]
fn selling_no_key_changes_nothing() {
    let mut ledger = market();
    buy_key(&mut ledger, &paying("buyer", 252_656), 10).unwrap();
    let sold = sell_key(&mut ledger, &paying("buyer", 1), 0, owner()).unwrap();
    assert_eq!(sold.messages, vec![send(COLLECTOR, 0), send("buyer", 0)]);
    assert_eq!(query_holding(&ledger, "buyer".to_string()).amount, 10);
    assert_eq!(query_issuer(&ledger).supply, 11);
}

#[test]
fn accounts_stay_balanced_over_many_trades() {
    let mut ledger = market();
    let traders = ["zoe", "bob", "amy", "kim", ISSUER, "ned"];
    let mut step: u128 = 7;
    for round in 0..200u128 {
        step = (step * 31 + 11) % 1_009;
        let trader = traders[(step % 6) as usize];
        let amount = step % 5;
        let info = paying(trader, u128::MAX);
        if round % 3 == 2 {
            let held = query_holding(&ledger, trader.to_string()).amount;
            let outcome = sell_key(&mut ledger, &info, amount, owner());
            let keeps_last = trader == ISSUER && amount == held;
            assert_eq!(outcome.is_ok(), amount <= held && held > 0 && !keeps_last);
        } else {
            assert!(buy_key(&mut ledger, &info, amount).is_ok());
        }
        assert_balanced(&ledger);
        assert!(query_holding(&ledger, ISSUER.to_string()).amount >= 1);
    }
}

#[test]
fn execute_handler_carries_out_the_trade_it_is_given() {
    let mut ledger = market();
    let bought = execute_handler(
        &mut ledger,
        &paying("buyer", 252_656),
        None,
        FriendTechAppExecuteMsg::BuyKey { amount: 10 },
    )
    .unwrap();
    assert_eq!(bought.event, TradeEvent::BuyKey { buyer: "buyer".to_string(), amount: 10 });
    let sold = execute_handler(
        &mut ledger,
        &paying("buyer", 10_312),
        owner(),
        FriendTechAppExecuteMsg::SellKey { amount: 5 },
    )
    .unwrap();
    assert_eq!(sold.messages, vec![send(COLLECTOR, 10_312), send("buyer", 206_250)]);
    assert_eq!(
        execute_handler(
            &mut ledger,
            &paying("buyer", 10_312),
            None,
            FriendTechAppExecuteMsg::SellKey { amount: 5 },
        ),
        Err(FriendTechAppError::AccountOwnerMustBeSetToIssueKey {})
    );
    assert_eq!(query_issuer(&ledger).supply, 6);
}

#[test]
fn query_handler_answers_each_question() {
    let mut ledger = market();
    buy_key(&mut ledger, &paying("buyer", 252_656), 10).unwrap();
    assert_eq!(
        query_handler(&ledger, FriendTechAppQueryMsg::Issuer {}),
        Ok(FriendTechAppQueryResponse::Issuer(query_issuer(&ledger)))
    );
    assert_eq!(
        query_handler(&ledger, FriendTechAppQueryMsg::SimulateBuyKey { amount: 1 }),
        Ok(FriendTechAppQueryResponse::SimulateBuyKey(SimulateBuyKeyResponse {
            price: 75_625,
            issuer_fee: 3_781,
            total_cost: 79_406,
        }))
    );
    assert_eq!(
        query_handler(&ledger, FriendTechAppQueryMsg::SimulateSellKey { amount: 1 }),
        Ok(FriendTechAppQueryResponse::SimulateSellKey(SimulateSellKeyResponse {
            price: 62_500,
            issuer_fee: 3_125,
            total_cost: 3_125,
        }))
    );
    assert_eq!(
        query_handler(&ledger, FriendTechAppQueryMsg::SimulateSellKey { amount: 12 }),
        Err(FriendTechAppError::Overflow {})
    );
    assert_eq!(
        query_handler(
            &ledger,
            FriendTechAppQueryMsg::Holders { limit: Some(1), start_after: None }
        ),
        Ok(FriendTechAppQueryResponse::Holders(HoldersResponse {
            holders: vec!["buyer".to_string()]
        }))
    );
    assert_eq!(
        query_handler(&ledger, FriendTechAppQueryMsg::Holding { holder: "buyer".to_string() }),
        Ok(FriendTechAppQueryResponse::Holding(HoldingResponse { amount: 10 }))
    );
}
