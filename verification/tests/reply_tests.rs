use cosmwasm_std::{Binary, Event as CwEvent, Reply, SubMsgResponse, SubMsgResult};
use stock_ledger::contract::{execute, instantiate, register_completion, reply};
use stock_ledger::error::ContractError;
use stock_ledger::msg::{Attribute, Event, ExecuteMsg, InstantiateMsg};
use stock_ledger::state::Store;

fn setup() -> Store {
    let (store, _resp) = instantiate(
        "alice".to_string(),
        InstantiateMsg { admin: None, code_id: 7 },
    );
    store
}

fn attr(key: &str, value: &str) -> Attribute {
    Attribute { key: key.to_string(), value: value.to_string() }
}

/// The protobuf acknowledgement of an instantiation: field 1 holds the new
/// contract's address as a length-prefixed string.
fn instantiate_ack(address: &str) -> Binary {
    let mut data = vec![0x0au8, address.len() as u8];
    data.extend_from_slice(address.as_bytes());
    Binary::from(data)
}

fn host_reply(address: &str, events: Vec<CwEvent>) -> Reply {
    #[allow(deprecated)]
    Reply {
        id: 1,
        result: SubMsgResult::Ok(SubMsgResponse { events, data: Some(instantiate_ack(address)) }),
    }
}

fn pool_of(store: &Store, symbol: &str) -> Vec<String> {
    store
        .unbought_stocks
        .iter()
        .find(|c| c.symbol == symbol)
        .map(|c| c.stocks.clone())
        .unwrap_or_default()
}

#[test]
fn mint_reply_success_registers_instance() {
    let mut store = setup();
    let events = vec![
        Event { ty: "instantiate".to_string(), attributes: vec![attr("code_id", "7")] },
        Event { ty: "wasm".to_string(), attributes: vec![attr("token_symbol", "ACM")] },
    ];
    let resp = register_completion(&mut store, "addrA".to_string(), &events).unwrap();
    assert_eq!(pool_of(&store, "ACM"), vec!["addrA".to_string()]);
    assert_eq!(resp.attributes[1].value, "ACM");
    assert_eq!(resp.attributes[2].value, "addrA");
    // A second completion for the same symbol appends to the same category.
    let events2 = vec![Event { ty: "wasm".to_string(), attributes: vec![attr("token_symbol", "ACM")] }];
    register_completion(&mut store, "addrB".to_string(), &events2).unwrap();
    assert_eq!(pool_of(&store, "ACM"), vec!["addrA".to_string(), "addrB".to_string()]);
    assert_eq!(store.unbought_stocks.len(), 1);
}

#[test]
fn mint_reply_missing_event_fails_no_field() {
    let mut store = setup();
    let events = vec![Event {
        ty: "instantiate".to_string(),
        attributes: vec![attr("token_symbol", "ACM")],
    }];
    let before_len = store.unbought_stocks.len();
    let r = register_completion(&mut store, "addrA".to_string(), &events);
    assert_eq!(r.unwrap_err(), ContractError::NoField);
    assert_eq!(store.unbought_stocks.len(), before_len);
    assert!(pool_of(&store, "ACM").is_empty());
}

#[test]
fn mint_reply_missing_attribute_fails_no_field() {
    let mut store = setup();
    let events = vec![Event { ty: "wasm".to_string(), attributes: vec![attr("code_id", "7")] }];
    let r = register_completion(&mut store, "addrA".to_string(), &events);
    assert_eq!(r.unwrap_err(), ContractError::NoField);
    assert!(store.unbought_stocks.is_empty());
}

#[test]
fn first_wasm_event_wins() {
    let mut store = setup();
    let events = vec![
        Event { ty: "wasm".to_string(), attributes: vec![attr("token_symbol", "AAA")] },
        Event { ty: "wasm".to_string(), attributes: vec![attr("token_symbol", "BBB")] },
    ];
    register_completion(&mut store, "addrA".to_string(), &events).unwrap();
    assert_eq!(pool_of(&store, "AAA"), vec!["addrA".to_string()]);
    assert!(pool_of(&store, "BBB").is_empty());
}

#[test]
fn reply_decodes_host_notice_and_registers() {
    let mut store = setup();
    let msg = host_reply(
        "addr1",
        vec![CwEvent::new("wasm").add_attribute("token_symbol", "ACM")],
    );
    let resp = reply(&mut store, &msg).unwrap();
    assert_eq!(pool_of(&store, "ACM"), vec!["addr1".to_string()]);
    assert_eq!(resp.attributes[2].value, "addr1");
}

#[test]
fn reply_without_creation_event_fails_no_field() {
    let mut store = setup();
    let msg = host_reply("addr1", vec![CwEvent::new("instantiate")]);
    let r = reply(&mut store, &msg);
    assert_eq!(r.unwrap_err(), ContractError::NoField);
    assert!(store.unbought_stocks.is_empty());
}

#[test]
fn reply_without_data_fails_with_pass_through() {
    let mut store = setup();
    #[allow(deprecated)]
    let msg = Reply {
        id: 1,
        result: SubMsgResult::Ok(SubMsgResponse {
            events: vec![CwEvent::new("wasm").add_attribute("token_symbol", "ACM")],
            data: None,
        }),
    };
    let r = reply(&mut store, &msg);
    assert!(matches!(r, Err(ContractError::Std(_))));
    assert!(store.unbought_stocks.is_empty());
}

#[test]
fn execute_dispatches_mint_and_transfers() {
    let mut store = setup();
    let minted = execute(
        &mut store,
        &"alice".to_string(),
        ExecuteMsg::MintStock {
            token_name: "Acme".to_string(),
            token_symbol: "ACM".to_string(),
            price_per_share: 100,
            stocks: 10,
        },
    )
    .unwrap();
    assert_eq!(minted.requests.len(), 1);
    assert_eq!(minted.requests[0].code_id, 7);
    let events = vec![Event { ty: "wasm".to_string(), attributes: vec![attr("token_symbol", "ACM")] }];
    register_completion(&mut store, "addr1".to_string(), &events).unwrap();
    execute(
        &mut store,
        &"bob".to_string(),
        ExecuteMsg::BuyStock { token_symbol: "ACM".to_string(), stock_address: "addr1".to_string() },
    )
    .unwrap();
    assert!(pool_of(&store, "ACM").is_empty());
    let r = execute(
        &mut store,
        &"bob".to_string(),
        ExecuteMsg::SellStock { token_symbol: "ACM".to_string(), stock_address: "addr1".to_string() },
    );
    assert!(r.is_ok());
    assert_eq!(pool_of(&store, "ACM"), vec!["addr1".to_string()]);
}
