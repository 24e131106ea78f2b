use stock_ledger::contract::{
    bought_stocks, buy_stock, instantiate, register_completion, stock_addresses, unbought_stocks,
};
use stock_ledger::error::ContractError;
use stock_ledger::msg::{Attribute, ContractInfo, Event, InstantiateMsg};
use stock_ledger::state::{StockCategory, Store};

fn setup() -> Store {
    let (store, _resp) = instantiate(
        "alice".to_string(),
        InstantiateMsg { admin: None, code_id: 7 },
    );
    store
}

fn register(store: &mut Store, symbol: &str, address: &str) {
    let events = vec![Event {
        ty: "wasm".to_string(),
        attributes: vec![Attribute {
            key: "token_symbol".to_string(),
            value: symbol.to_string(),
        }],
    }];
    register_completion(store, address.to_string(), &events).unwrap();
}

fn info(name: &str, symbol: &str, price: u64, shares: u64) -> ContractInfo {
    ContractInfo {
        token_name: name.to_string(),
        token_symbol: symbol.to_string(),
        price_per_share: price,
        stocks: shares,
    }
}

#[test]
fn stock_addresses_flattens_in_order() {
    let cats = vec![
        StockCategory {
            symbol: "ACM".to_string(),
            stocks: vec!["a1".to_string(), "a2".to_string()],
        },
        StockCategory { symbol: "XYZ".to_string(), stocks: vec!["x1".to_string()] },
    ];
    let addrs = stock_addresses(&cats);
    assert_eq!(addrs, vec!["a1".to_string(), "a2".to_string(), "x1".to_string()]);
}

#[test]
fn unbought_stocks_pairs_details_in_order() {
    let mut store = setup();
    register(&mut store, "ACM", "a1");
    register(&mut store, "ACM", "a2");
    register(&mut store, "XYZ", "x1");
    let details = vec![
        info("Acme", "ACM", 100, 10),
        info("Acme", "ACM", 100, 10),
        info("Xylo", "XYZ", 5, 3),
    ];
    let listing = unbought_stocks(&store, &details);
    assert_eq!(listing.stocks.len(), 2);
    assert_eq!(listing.stocks[0].symbol, "ACM");
    assert_eq!(listing.stocks[0].stock_info.len(), 2);
    assert_eq!(listing.stocks[0].stock_info[0].address, "a1");
    assert_eq!(listing.stocks[0].stock_info[1].address, "a2");
    assert_eq!(listing.stocks[0].stock_info[1].contract_info.token_name, "Acme");
    assert_eq!(listing.stocks[1].symbol, "XYZ");
    assert_eq!(listing.stocks[1].stock_info[0].address, "x1");
    assert_eq!(listing.stocks[1].stock_info[0].contract_info.token_name, "Xylo");
    assert_eq!(listing.stocks[1].stock_info[0].contract_info.price_per_share, 5);
}

#[test]
fn bought_stocks_absent_owner_fails() {
    let store = setup();
    let details: Vec<ContractInfo> = Vec::new();
    let r = bought_stocks(&store, &"bob".to_string(), &details);
    assert!(matches!(r, Err(ContractError::Std(_))));
}

#[test]
fn bought_stocks_lists_owner_holdings() {
    let mut store = setup();
    register(&mut store, "ACM", "a1");
    buy_stock(&mut store, &"bob".to_string(), &"ACM".to_string(), &"a1".to_string()).unwrap();
    let details = vec![info("Acme", "ACM", 100, 10)];
    let listing = bought_stocks(&store, &"bob".to_string(), &details).unwrap();
    assert_eq!(listing.stocks.len(), 1);
    assert_eq!(listing.stocks[0].symbol, "ACM");
    assert_eq!(listing.stocks[0].stock_info[0].address, "a1");
    assert_eq!(listing.stocks[0].stock_info[0].contract_info.stocks, 10);
}

#[test]
fn empty_holdings_record_lists_as_empty_not_error() {
    let mut store = setup();
    register(&mut store, "ACM", "a1");
    buy_stock(&mut store, &"bob".to_string(), &"ACM".to_string(), &"a1".to_string()).unwrap();
    stock_ledger::contract::sell_stock(
        &mut store,
        &"bob".to_string(),
        &"ACM".to_string(),
        &"a1".to_string(),
    )
    .unwrap();
    // bob's record remains, with an empty category: listing succeeds.
    let details: Vec<ContractInfo> = Vec::new();
    let listing = bought_stocks(&store, &"bob".to_string(), &details).unwrap();
    assert_eq!(listing.stocks.len(), 1);
    assert!(listing.stocks[0].stock_info.is_empty());
}
