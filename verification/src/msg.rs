use vstd::prelude::*;

use crate::state::{flat_insts, CatModel};

verus! {

/// The initialization message: an optional admin (the sender is used when it
/// is absent) and the factory class identifier for newly minted stock.
#[derive(Debug)]
pub struct InstantiateMsg {
    pub admin: Option<String>,
    pub code_id: u64,
}

/// The mutating operations of the ledger.
#[derive(Debug)]
pub enum ExecuteMsg {
    MintStock { token_name: String, token_symbol: String, price_per_share: u64, stocks: u64 },
    BuyStock { token_symbol: String, stock_address: String },
    SellStock { token_symbol: String, stock_address: String },
}

/// The read operations of the ledger.
#[derive(Debug)]
pub enum QueryMsg {
    QueryDetails { stock_address: String },
    BoughtStocks { address: String },
    UnboughtStocks {},
}

/// One key/value pair of an observability record or of a creation event.
#[derive(Debug)]
pub struct Attribute {
    pub key: String,
    pub value: String,
}

/// One event reported with a completion notice; a creation event has the
/// type `wasm` and carries the symbol under a `token_symbol` attribute.
#[derive(Debug)]
pub struct Event {
    pub ty: String,
    pub attributes: Vec<Attribute>,
}

/// The descriptive payload a creation request carries to the factory.
#[derive(Debug)]
pub struct MintMsg {
    pub token_name: String,
    pub token_symbol: String,
    pub price_per_share: u64,
    pub stocks: u64,
}

/// A creation request for the external factory: the class to instantiate,
/// the correlation id the completion notice will carry, and the payload.
#[derive(Debug)]
pub struct MintRequest {
    pub id: u64,
    pub code_id: u64,
    pub msg: MintMsg,
}

/// The observable outcome of a successful operation: requests handed to the
/// external factory and attributes recording what happened.
#[derive(Debug)]
pub struct Response {
    pub requests: Vec<MintRequest>,
    pub attributes: Vec<Attribute>,
}

/// The descriptive details one instance answers to a describe read.
#[derive(Debug)]
pub struct ContractInfo {
    pub token_name: String,
    pub token_symbol: String,
    pub price_per_share: u64,
    pub stocks: u64,
}

/// One instance together with its details.
#[derive(Debug)]
pub struct StockInfo {
    pub address: String,
    pub contract_info: ContractInfo,
}

/// One symbol together with its instances and their details.
#[derive(Debug)]
pub struct SymbolStock {
    pub symbol: String,
    pub stock_info: Vec<StockInfo>,
}

/// The assembled answer of a holdings or pool listing.
#[derive(Debug)]
pub struct AllStocksResponse {
    pub stocks: Vec<SymbolStock>,
}

// ---------------------------------------------------------------------------
// Model of assembled listings
// ---------------------------------------------------------------------------

/// Model of one instance's details.
#[verifier::ext_equal]
pub struct InfoModel {
    pub token_name: Seq<char>,
    pub token_symbol: Seq<char>,
    pub price_per_share: u64,
    pub stocks: u64,
}

impl View for ContractInfo {
    type V = InfoModel;

    open spec fn view(&self) -> InfoModel {
        InfoModel {
            token_name: self.token_name@,
            token_symbol: self.token_symbol@,
            price_per_share: self.price_per_share,
            stocks: self.stocks,
        }
    }
}

impl Clone for ContractInfo {
    /// A clone carries the same details.
    fn clone(&self) -> (r: Self)
        ensures
            r@ == self@,
    {
        ContractInfo {
            token_name: self.token_name.clone(),
            token_symbol: self.token_symbol.clone(),
            price_per_share: self.price_per_share,
            stocks: self.stocks,
        }
    }
}

/// Model of one listed instance.
#[verifier::ext_equal]
pub struct StockInfoModel {
    pub address: Seq<char>,
    pub contract_info: InfoModel,
}

impl View for StockInfo {
    type V = StockInfoModel;

    open spec fn view(&self) -> StockInfoModel {
        StockInfoModel { address: self.address@, contract_info: self.contract_info@ }
    }
}

/// Model of one listed symbol.
#[verifier::ext_equal]
pub struct SymbolStockModel {
    pub symbol: Seq<char>,
    pub stock_info: Seq<StockInfoModel>,
}

impl View for SymbolStock {
    type V = SymbolStockModel;

    open spec fn view(&self) -> SymbolStockModel {
        SymbolStockModel {
            symbol: self.symbol@,
            stock_info: self.stock_info@.map_values(|x: StockInfo| x@),
        }
    }
}

impl View for AllStocksResponse {
    type V = Seq<SymbolStockModel>;

    open spec fn view(&self) -> Seq<SymbolStockModel> {
        self.stocks@.map_values(|x: SymbolStock| x@)
    }
}

/// The model of a details list.
pub open spec fn infos_model(s: Seq<ContractInfo>) -> Seq<InfoModel> {
    s.map_values(|x: ContractInfo| x@)
}

/// The model of a listed-symbol list.
pub open spec fn sym_stocks_model(s: Seq<SymbolStock>) -> Seq<SymbolStockModel> {
    s.map_values(|x: SymbolStock| x@)
}

/// Does `resp` list exactly the collection `cats`, pairing each address, in
/// flattened traversal order, with the matching entry of `details`?
pub open spec fn assembled(
    cats: Seq<CatModel>,
    details: Seq<InfoModel>,
    resp: Seq<SymbolStockModel>,
) -> bool {
    &&& resp.len() == cats.len()
    &&& forall|i: int|
        0 <= i < cats.len() ==> {
            &&& (#[trigger] resp[i]).symbol == cats[i].symbol
            &&& resp[i].stock_info.len() == cats[i].stocks.len()
            &&& forall|k: int|
                0 <= k < cats[i].stocks.len() ==> {
                    &&& (#[trigger] resp[i].stock_info[k]).address == cats[i].stocks[k]
                    &&& resp[i].stock_info[k].contract_info == details[flat_insts(
                        cats.take(i),
                    ).len() + k]
                }
        }
}

// ---------------------------------------------------------------------------
// Model of events and the symbol correlation of a completion notice
// ---------------------------------------------------------------------------

/// Model of one event attribute.
#[verifier::ext_equal]
pub struct EventAttrModel {
    pub key: Seq<char>,
    pub value: Seq<char>,
}

/// Model of one event.
#[verifier::ext_equal]
pub struct EventModel {
    pub ty: Seq<char>,
    pub attributes: Seq<EventAttrModel>,
}

impl View for Attribute {
    type V = EventAttrModel;

    open spec fn view(&self) -> EventAttrModel {
        EventAttrModel { key: self.key@, value: self.value@ }
    }
}

/// The model of an attribute list.
pub open spec fn attrs_model(s: Seq<Attribute>) -> Seq<EventAttrModel> {
    s.map_values(|a: Attribute| a@)
}

impl View for Event {
    type V = EventModel;

    open spec fn view(&self) -> EventModel {
        EventModel { ty: self.ty@, attributes: attrs_model(self.attributes@) }
    }
}

/// The model of an event list.
pub open spec fn events_model(s: Seq<Event>) -> Seq<EventModel> {
    s.map_values(|e: Event| e@)
}

/// The value of the first attribute carrying `key`, if any.
pub open spec fn first_attr(attrs: Seq<EventAttrModel>, key: Seq<char>) -> Option<Seq<char>>
    decreases attrs.len(),
{
    if attrs.len() == 0 {
        Option::None
    } else if attrs.first().key == key {
        Option::Some(attrs.first().value)
    } else {
        first_attr(attrs.drop_first(), key)
    }
}

/// The symbol a completion notice correlates by: the `token_symbol`
/// attribute of the first creation (`wasm`) event. `None` when the event or
/// the attribute is missing.
pub open spec fn wasm_symbol(events: Seq<EventModel>) -> Option<Seq<char>>
    decreases events.len(),
{
    if events.len() == 0 {
        Option::None
    } else if events.first().ty == "wasm"@ {
        first_attr(events.first().attributes, "token_symbol"@)
    } else {
        wasm_symbol(events.drop_first())
    }
}

} // verus!
