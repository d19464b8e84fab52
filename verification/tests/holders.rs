use friend_tech_app::address::{precedes, precedes_bytes};
use friend_tech_app::handlers::execute::buy_key;
use friend_tech_app::handlers::query::{query_holders, query_holding};
use friend_tech_app::payment::{Coin, MessageInfo};
use friend_tech_app::state::{Config, Holder, Ledger};

const DENOM: &str = "ukey";

fn config() -> Config {
    Config {
        username: "ada".to_string(),
        fee_denom: DENOM.to_string(),
        issuer_fee_collector: "collector".to_string(),
    }
}

fn paying(sender: &str) -> MessageInfo {
    MessageInfo {
        sender: sender.to_string(),
        funds: vec![Coin { denom: DENOM.to_string(), amount: u128::MAX }],
    }
}

/// A market in which each of `names` holds one key, beside the issuer `m`.
fn market_with(names: &[&str]) -> Ledger {
    let mut ledger = Ledger::new(config(), "m".to_string());
    for name in names {
        buy_key(&mut ledger, &paying(name), 1).unwrap();
    }
    ledger
}

fn page(ledger: &Ledger, limit: Option<u32>, start_after: Option<&str>) -> Vec<String> {
    query_holders(ledger, limit, start_after.map(|s| s.to_string())).holders
}

#[test]
fn holders_are_listed_in_ascending_order() {
    let ledger = market_with(&["z", "b", "x", "a", "mm", "c"]);
    assert_eq!(page(&ledger, None, None), vec!["a", "b", "c", "m", "mm", "x", "z"]);
}

#[test]
fn limit_one_gives_one_address_and_the_cursor_moves_on() {
    let ledger = market_with(&["z", "b", "x"]);
    assert_eq!(page(&ledger, Some(1), None), vec!["b"]);
    assert_eq!(page(&ledger, Some(1), Some("b")), vec!["m"]);
    assert_eq!(page(&ledger, Some(1), Some("m")), vec!["x"]);
    assert_eq!(page(&ledger, Some(1), Some("x")), vec!["z"]);
    assert_eq!(page(&ledger, Some(1), Some("z")), Vec::<String>::new());
}

#[test]
fn cursor_need_not_be_a_holder() {
    let ledger = market_with(&["z", "b", "x"]);
    assert_eq!(page(&ledger, None, Some("c")), vec!["m", "x", "z"]);
    assert_eq!(page(&ledger, None, Some("")), vec!["b", "m", "x", "z"]);
    assert_eq!(page(&ledger, Some(2), Some("a")), vec!["b", "m"]);
    assert_eq!(page(&ledger, None, Some("zz")), Vec::<String>::new());
}

#[test]
fn page_size_is_ten_by_default_and_thirty_at_most() {
    let names: Vec<String> = (0..40).map(|i| format!("h{:02}", i)).collect();
    let refs: Vec<&str> = names.iter().map(|s| s.as_str()).collect();
    let ledger = market_with(&refs);
    assert_eq!(page(&ledger, None, None), names[..10].to_vec());
    assert_eq!(page(&ledger, Some(30), None), names[..30].to_vec());
    assert_eq!(page(&ledger, Some(31), None), names[..30].to_vec());
    assert_eq!(page(&ledger, Some(u32::MAX), None), names[..30].to_vec());
    assert_eq!(page(&ledger, Some(0), None), Vec::<String>::new());
    assert_eq!(page(&ledger, Some(30), Some("h29")).len(), 11);
    assert_eq!(page(&ledger, Some(5), Some("h37")), vec!["h38", "h39", "m"]);
}

#[test]
fn addresses_are_ordered_by_their_bytes() {
    assert!(precedes("a", "b"));
    assert!(!precedes("b", "a"));
    assert!(!precedes("a", "a"));
    assert!(precedes("", "a"));
    assert!(!precedes("", ""));
    assert!(precedes("a", "aa"));
    assert!(!precedes("aa", "a"));
    assert!(precedes("Z", "a"));
    assert!(precedes("a9", "aA"));
    assert!(precedes("z", "\u{e9}"));
    assert!(precedes("\u{e9}", "\u{4e2d}"));
    assert!(precedes_bytes(&[1, 2, 3], &[1, 2, 4]));
    assert!(precedes_bytes(&[1, 2], &[1, 2, 0]));
    assert!(!precedes_bytes(&[1, 3], &[1, 2, 9]));
    assert!(!precedes_bytes(&[255], &[254, 255]));
    let words = ["", "a", "ab", "b", "B", "\u{e9}", "aa", "a\u{0}"];
    for x in words {
        for y in words {
            assert_eq!(precedes(x, y), x < y);
        }
    }
}

#[test]
fn holding_of_a_stranger_is_zero() {
    let ledger = market_with(&["b"]);
    assert_eq!(query_holding(&ledger, "stranger".to_string()).amount, 0);
    assert_eq!(query_holding(&ledger, String::new()).amount, 0);
    assert_eq!(query_holding(&ledger, "b".to_string()).amount, 1);
    assert!(ledger.has_holder(&"b".to_string()));
    assert!(!ledger.has_holder(&"stranger".to_string()));
    assert_eq!(ledger.may_load_holder(&"m".to_string()), Some(1));
    assert_eq!(ledger.may_load_holder(&"n".to_string()), None);
    assert_eq!(ledger.holder_count(), 2);
}

#[test]
fn new_ledger_holds_the_issuers_key() {
    let ledger = Ledger::new(config(), "ada".to_string());
    assert_eq!(ledger.load_supply(), 1);
    assert_eq!(ledger.load_config(), &config());
    assert_eq!(ledger.range_holders(&None, 10), vec!["ada".to_string()]);
    assert_eq!(ledger.may_load_holder(&"ada".to_string()), Some(1));
}

fn line(address: &str, amount: u128) -> Holder {
    Holder { address: address.to_string(), amount }
}

#[test]
fn ledger_is_restored_from_accounts_in_order() {
    let ledger =
        Ledger::restore(config(), 9, vec![line("a", 2), line("b", 3), line("c", 4)]).unwrap();
    assert_eq!(ledger.load_supply(), 9);
    assert_eq!(page(&ledger, None, None), vec!["a", "b", "c"]);
    assert_eq!(query_holding(&ledger, "b".to_string()).amount, 3);
    let empty = Ledger::restore(config(), 0, vec![]).unwrap();
    assert_eq!(empty.load_supply(), 0);
    assert_eq!(empty.holder_count(), 0);
}

#[test]
fn ledger_is_not_restored_from_accounts_out_of_order() {
    // the supply is not the sum
    assert!(Ledger::restore(config(), 10, vec![line("a", 2), line("b", 3)]).is_none());
    assert!(Ledger::restore(config(), 1, vec![]).is_none());
    // a line without keys
    assert!(Ledger::restore(config(), 2, vec![line("a", 2), line("b", 0)]).is_none());
    // addresses that do not rise
    assert!(Ledger::restore(config(), 5, vec![line("b", 2), line("a", 3)]).is_none());
    assert!(Ledger::restore(config(), 5, vec![line("a", 2), line("a", 3)]).is_none());
    // a sum beyond 128 bits
    assert!(Ledger::restore(config(), 0, vec![line("a", u128::MAX), line("b", 1)]).is_none());
}
