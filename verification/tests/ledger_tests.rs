use stock_ledger::contract::{buy_stock, instantiate, register_completion, sell_stock, transfer};
use stock_ledger::error::ContractError;
use stock_ledger::msg::{Attribute, Event, InstantiateMsg};
use stock_ledger::state::{StockCategory, Store};

fn setup() -> Store {
    let (store, _resp) = instantiate(
        "alice".to_string(),
        InstantiateMsg { admin: None, code_id: 7 },
    );
    store
}

fn wasm_event(symbol: &str) -> Event {
    Event {
        ty: "wasm".to_string(),
        attributes: vec![Attribute {
            key: "token_symbol".to_string(),
            value: symbol.to_string(),
        }],
    }
}

fn register(store: &mut Store, symbol: &str, address: &str) {
    let events = vec![wasm_event(symbol)];
    register_completion(store, address.to_string(), &events).unwrap();
}

fn count_everywhere(store: &Store, address: &str) -> usize {
    let mut n = 0;
    for cat in store.unbought_stocks.iter() {
        n += cat.stocks.iter().filter(|a| a.as_str() == address).count();
    }
    for holder in store.bought_stocks.iter() {
        for cat in holder.categories.iter() {
            n += cat.stocks.iter().filter(|a| a.as_str() == address).count();
        }
    }
    n
}

fn pool_has(store: &Store, symbol: &str, address: &str) -> bool {
    store
        .unbought_stocks
        .iter()
        .any(|c| c.symbol == symbol && c.stocks.iter().any(|a| a == address))
}

fn holdings_have(store: &Store, owner: &str, symbol: &str, address: &str) -> bool {
    store.bought_stocks.iter().any(|h| {
        h.owner == owner
            && h.categories
                .iter()
                .any(|c| c.symbol == symbol && c.stocks.iter().any(|a| a == address))
    })
}

#[test]
fn instantiate_sets_admin_and_code_id() {
    let (store, resp) = instantiate(
        "creator".to_string(),
        InstantiateMsg { admin: Some("alice".to_string()), code_id: 42 },
    );
    assert_eq!(store.config.admin, "alice");
    assert_eq!(store.nft_code_id, 42);
    assert!(store.unbought_stocks.is_empty());
    assert!(store.bought_stocks.is_empty());
    assert_eq!(resp.attributes[0].key, "action");
    assert_eq!(resp.attributes[0].value, "instantiate");
    assert_eq!(resp.attributes[1].key, "admin");
    assert_eq!(resp.attributes[1].value, "alice");
}

#[test]
fn instantiate_defaults_admin_to_sender() {
    let (store, _) = instantiate(
        "creator".to_string(),
        InstantiateMsg { admin: None, code_id: 1 },
    );
    assert_eq!(store.config.admin, "creator");
}

#[test]
fn buy_moves_instance_to_holdings() {
    let mut store = setup();
    register(&mut store, "ACM", "addr1");
    let r = buy_stock(
        &mut store,
        &"bob".to_string(),
        &"ACM".to_string(),
        &"addr1".to_string(),
    );
    let resp = r.unwrap();
    assert!(!pool_has(&store, "ACM", "addr1"));
    assert!(holdings_have(&store, "bob", "ACM", "addr1"));
    assert_eq!(resp.attributes[0].value, "buy_stock");
    assert_eq!(resp.attributes[1].value, "bob");
    assert_eq!(resp.attributes[2].value, "ACM");
    assert_eq!(resp.attributes[3].value, "addr1");
}

#[test]
fn round_trip_returns_instance_to_pool() {
    let mut store = setup();
    register(&mut store, "ACM", "addr1");
    buy_stock(&mut store, &"bob".to_string(), &"ACM".to_string(), &"addr1".to_string()).unwrap();
    let resp = sell_stock(
        &mut store,
        &"bob".to_string(),
        &"ACM".to_string(),
        &"addr1".to_string(),
    )
    .unwrap();
    assert!(pool_has(&store, "ACM", "addr1"));
    assert!(!holdings_have(&store, "bob", "ACM", "addr1"));
    assert_eq!(count_everywhere(&store, "addr1"), 1);
    assert_eq!(resp.attributes[0].value, "sell_stock");
}

#[test]
fn buy_missing_symbol_fails_stock_not_found() {
    let mut store = setup();
    register(&mut store, "ACM", "addr1");
    let r = buy_stock(
        &mut store,
        &"bob".to_string(),
        &"XYZ".to_string(),
        &"addr1".to_string(),
    );
    assert_eq!(r.unwrap_err(), ContractError::StockNotFound);
}

#[test]
fn buy_missing_instance_fails_stock_not_found() {
    let mut store = setup();
    register(&mut store, "ACM", "addr1");
    let r = buy_stock(
        &mut store,
        &"bob".to_string(),
        &"ACM".to_string(),
        &"addr2".to_string(),
    );
    assert_eq!(r.unwrap_err(), ContractError::StockNotFound);
    assert!(pool_has(&store, "ACM", "addr1"));
}

#[test]
fn buy_is_not_idempotent() {
    let mut store = setup();
    register(&mut store, "ACM", "addr1");
    buy_stock(&mut store, &"bob".to_string(), &"ACM".to_string(), &"addr1".to_string()).unwrap();
    let again = buy_stock(
        &mut store,
        &"bob".to_string(),
        &"ACM".to_string(),
        &"addr1".to_string(),
    );
    assert_eq!(again.unwrap_err(), ContractError::StockNotFound);
    assert_eq!(count_everywhere(&store, "addr1"), 1);
}

#[test]
fn sell_without_holdings_fails_stock_not_found() {
    let mut store = setup();
    register(&mut store, "ACM", "addr1");
    let r = sell_stock(
        &mut store,
        &"bob".to_string(),
        &"ACM".to_string(),
        &"addr1".to_string(),
    );
    assert_eq!(r.unwrap_err(), ContractError::StockNotFound);
}

#[test]
fn sell_missing_category_fails_stock_not_found() {
    let mut store = setup();
    register(&mut store, "ACM", "addr1");
    register(&mut store, "XYZ", "addr2");
    buy_stock(&mut store, &"bob".to_string(), &"ACM".to_string(), &"addr1".to_string()).unwrap();
    let r = sell_stock(
        &mut store,
        &"bob".to_string(),
        &"XYZ".to_string(),
        &"addr2".to_string(),
    );
    assert_eq!(r.unwrap_err(), ContractError::StockNotFound);
}

#[test]
fn sell_missing_instance_fails_stock_not_found() {
    let mut store = setup();
    register(&mut store, "ACM", "addr1");
    register(&mut store, "ACM", "addr2");
    buy_stock(&mut store, &"bob".to_string(), &"ACM".to_string(), &"addr1".to_string()).unwrap();
    let r = sell_stock(
        &mut store,
        &"bob".to_string(),
        &"ACM".to_string(),
        &"addr2".to_string(),
    );
    assert_eq!(r.unwrap_err(), ContractError::StockNotFound);
    assert!(holdings_have(&store, "bob", "ACM", "addr1"));
}

#[test]
fn failed_buy_leaves_state_unchanged() {
    let mut store = setup();
    register(&mut store, "ACM", "addr1");
    let pool_before: Vec<(String, Vec<String>)> = store
        .unbought_stocks
        .iter()
        .map(|c| (c.symbol.clone(), c.stocks.clone()))
        .collect();
    buy_stock(&mut store, &"bob".to_string(), &"ACM".to_string(), &"nope".to_string())
        .unwrap_err();
    let pool_after: Vec<(String, Vec<String>)> = store
        .unbought_stocks
        .iter()
        .map(|c| (c.symbol.clone(), c.stocks.clone()))
        .collect();
    assert_eq!(pool_before, pool_after);
    assert!(store.bought_stocks.is_empty());
}

#[test]
fn conservation_across_sequence() {
    let mut store = setup();
    register(&mut store, "ACM", "addr1");
    register(&mut store, "ACM", "addr2");
    register(&mut store, "XYZ", "addr3");
    let bob = "bob".to_string();
    let carol = "carol".to_string();
    buy_stock(&mut store, &bob, &"ACM".to_string(), &"addr1".to_string()).unwrap();
    buy_stock(&mut store, &carol, &"ACM".to_string(), &"addr2".to_string()).unwrap();
    sell_stock(&mut store, &bob, &"ACM".to_string(), &"addr1".to_string()).unwrap();
    buy_stock(&mut store, &carol, &"ACM".to_string(), &"addr1".to_string()).unwrap();
    buy_stock(&mut store, &bob, &"XYZ".to_string(), &"addr3".to_string()).unwrap();
    sell_stock(&mut store, &carol, &"ACM".to_string(), &"addr2".to_string()).unwrap();
    for a in ["addr1", "addr2", "addr3"] {
        assert_eq!(count_everywhere(&store, a), 1, "address {} must occur exactly once", a);
    }
}

#[test]
fn transfer_creates_category_in_destination() {
    let mut from = vec![StockCategory {
        symbol: "ACM".to_string(),
        stocks: vec!["addr1".to_string(), "addr2".to_string()],
    }];
    let mut to: Vec<StockCategory> = Vec::new();
    let r = transfer(&mut from, &mut to, &"ACM".to_string(), &"addr1".to_string());
    assert!(r.is_ok());
    assert_eq!(from[0].stocks, vec!["addr2".to_string()]);
    assert_eq!(to.len(), 1);
    assert_eq!(to[0].symbol, "ACM");
    assert_eq!(to[0].stocks, vec!["addr1".to_string()]);
}

#[test]
fn empty_category_record_remains_after_transfer() {
    let mut store = setup();
    register(&mut store, "ACM", "addr1");
    buy_stock(&mut store, &"bob".to_string(), &"ACM".to_string(), &"addr1".to_string()).unwrap();
    assert_eq!(store.unbought_stocks.len(), 1);
    assert_eq!(store.unbought_stocks[0].symbol, "ACM");
    assert!(store.unbought_stocks[0].stocks.is_empty());
}

#[test]
fn end_to_end_scenario() {
    let (mut store, _) = instantiate(
        "creator".to_string(),
        InstantiateMsg { admin: Some("alice".to_string()), code_id: 7 },
    );
    let minted = stock_ledger::contract::mint_stock(
        &store,
        "Acme".to_string(),
        "ACM".to_string(),
        100,
        10,
    )
    .unwrap();
    assert_eq!(minted.requests.len(), 1);
    assert_eq!(minted.requests[0].code_id, 7);
    assert_eq!(minted.requests[0].id, stock_ledger::contract::INSTANTIATE_TOKEN_ID);
    assert_eq!(minted.requests[0].msg.token_name, "Acme");
    assert_eq!(minted.requests[0].msg.token_symbol, "ACM");
    assert_eq!(minted.requests[0].msg.price_per_share, 100);
    assert_eq!(minted.requests[0].msg.stocks, 10);
    // The factory creates "addr1" and its creation event carries the symbol.
    register(&mut store, "ACM", "addr1");
    assert!(pool_has(&store, "ACM", "addr1"));
    buy_stock(&mut store, &"bob".to_string(), &"ACM".to_string(), &"addr1".to_string()).unwrap();
    assert!(holdings_have(&store, "bob", "ACM", "addr1"));
    assert!(!pool_has(&store, "ACM", "addr1"));
    sell_stock(&mut store, &"bob".to_string(), &"ACM".to_string(), &"addr1".to_string()).unwrap();
    assert!(pool_has(&store, "ACM", "addr1"));
    assert!(!holdings_have(&store, "bob", "ACM", "addr1"));
}
