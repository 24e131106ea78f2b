use vstd::prelude::*;

use crate::error::ContractError;
use crate::msg::{
    assembled, attrs_model, events_model, first_attr, infos_model, sym_stocks_model, wasm_symbol,
    AllStocksResponse, Attribute, ContractInfo, Event, EventAttrModel, EventModel, ExecuteMsg,
    InstantiateMsg, MintMsg, MintRequest, Response, StockInfo, SymbolStock,
};
use crate::state::{
    add_inst, add_to_holdings, buy_spec, cat_has, cats_count, cats_model, has_inst,
    has_owner, has_sym, holdings_has, holdings_model, holdings_of, insts_model, inst_at,
    lemma_add_inst_count, lemma_add_inst_syms, lemma_add_to_holdings_count, lemma_cat_at_unique,
    lemma_cats_count_lower, lemma_cats_model_update, lemma_count_unique,
    lemma_holdings_count_lower, lemma_insts_model_remove, lemma_owner_at_unique,
    lemma_flat_take_le, lemma_flat_take_succ, lemma_remove_from_holdings_count,
    lemma_remove_inst_count, lemma_remove_inst_syms, flat_insts,
    register_spec, remove_from_holdings, remove_inst, sell_spec, syms_unique, total_count, wf,
    CatModel, Config,
    OwnerHoldings, StockCategory, Store,
};

verus! {

/// The correlation id carried by every creation request; the completion
/// notice for a request is delivered under the same id.
pub const INSTANTIATE_TOKEN_ID: u64 = 1;

/// Set up a fresh ledger: the admin from the message (or the sender when
/// none was given), an empty unowned pool, no holdings, and the factory
/// class identifier to instantiate new stock from.
pub fn instantiate(sender: String, msg: InstantiateMsg) -> (r: (Store, Response))
    ensures
        r.0@.admin == (match msg.admin {
            Option::Some(a) => a@,
            Option::None => sender@,
        }),
        r.0@.code_id == msg.code_id,
        r.0@.unbought.len() == 0,
        r.0@.bought.len() == 0,
        wf(r.0@),
        r.1.requests@.len() == 0,
        r.1.attributes@.len() == 2,
        r.1.attributes@[0].key@ == "action"@ && r.1.attributes@[0].value@ == "instantiate"@,
        r.1.attributes@[1].key@ == "admin"@ && r.1.attributes@[1].value@ == r.0@.admin,
{
    let admin: String = match msg.admin {
        Option::Some(a) => a,
        Option::None => sender,
    };
    let store = Store {
        config: Config { admin: admin.clone() },
        unbought_stocks: Vec::new(),
        bought_stocks: Vec::new(),
        nft_code_id: msg.code_id,
    };
    let mut attributes: Vec<Attribute> = Vec::new();
    attributes.push(Attribute { key: "action".to_owned(), value: "instantiate".to_owned() });
    attributes.push(Attribute { key: "admin".to_owned(), value: admin });
    let resp = Response { requests: Vec::new(), attributes };
    proof {
        assert forall|inst: Seq<char>| total_count(store@, inst) <= 1 by {
            assert(store@.unbought.len() == 0);
            assert(store@.bought.len() == 0);
        }
    }
    (store, resp)
}

/// The index of the first category carrying `symbol`, if any.
fn find_symbol(cats: &Vec<StockCategory>, symbol: &String) -> (r: Option<usize>)
    ensures
        match r {
            Option::Some(i) => i < cats@.len() && cats_model(cats@)[i as int].symbol == symbol@,
            Option::None => !has_sym(cats_model(cats@), symbol@),
        },
{
    let mut i: usize = 0;
    while i < cats.len()
        invariant
            i <= cats@.len(),
            forall|j: int| 0 <= j < i ==> cats_model(cats@)[j].symbol != symbol@,
        decreases cats@.len() - i,
    {
        if cats[i].symbol == *symbol {
            return Option::Some(i);
        }
        i = i + 1;
    }
    Option::None
}

/// The index of the first occurrence of `instance` in a category's list.
fn find_instance(stocks: &Vec<String>, instance: &String) -> (r: Option<usize>)
    ensures
        match r {
            Option::Some(k) => k < stocks@.len() && insts_model(stocks@)[k as int] == instance@,
            Option::None => !has_inst(insts_model(stocks@), instance@),
        },
{
    let mut k: usize = 0;
    while k < stocks.len()
        invariant
            k <= stocks@.len(),
            forall|j: int| 0 <= j < k ==> insts_model(stocks@)[j] != instance@,
        decreases stocks@.len() - k,
    {
        if stocks[k] == *instance {
            return Option::Some(k);
        }
        k = k + 1;
    }
    Option::None
}

/// The index of the first holdings record of `owner`, if any.
fn find_owner(hs: &Vec<OwnerHoldings>, owner: &String) -> (r: Option<usize>)
    ensures
        match r {
            Option::Some(i) => i < hs@.len() && holdings_model(hs@)[i as int].owner == owner@,
            Option::None => !has_owner(holdings_model(hs@), owner@),
        },
{
    let mut i: usize = 0;
    while i < hs.len()
        invariant
            i <= hs@.len(),
            forall|j: int| 0 <= j < i ==> holdings_model(hs@)[j].owner != owner@,
        decreases hs@.len() - i,
    {
        if hs[i].owner == *owner {
            return Option::Some(i);
        }
        i = i + 1;
    }
    Option::None
}

/// The single choke point every buy and sell goes through: remove `instance`
/// from the category of `symbol` in `from` and append it to the category of
/// `symbol` in `to` (creating that category if needed). Fails with
/// `StockNotFound`, touching nothing, when `from` does not hold the instance
/// under the symbol.
pub fn transfer(
    from: &mut Vec<StockCategory>,
    to: &mut Vec<StockCategory>,
    symbol: &String,
    instance: &String,
) -> (r: Result<(), ContractError>)
    requires
        syms_unique(cats_model(old(from)@)),
        syms_unique(cats_model(old(to)@)),
        cats_count(cats_model(old(from)@), instance@) <= 1,
    ensures
        match r {
            Result::Ok(_) => {
                &&& cat_has(cats_model(old(from)@), symbol@, instance@)
                &&& cats_model(final(from)@) == remove_inst(
                    cats_model(old(from)@),
                    symbol@,
                    instance@,
                )
                &&& cats_model(final(to)@) == add_inst(cats_model(old(to)@), symbol@, instance@)
            },
            Result::Err(e) => {
                &&& e == ContractError::StockNotFound
                &&& !cat_has(cats_model(old(from)@), symbol@, instance@)
                &&& final(from)@ == old(from)@
                &&& final(to)@ == old(to)@
            },
        },
{
    let ghost fm = cats_model(from@);
    let sym_i = match find_symbol(from, symbol) {
        Option::None => {
            return Result::Err(ContractError::StockNotFound);
        },
        Option::Some(i) => i,
    };
    proof {
        lemma_cat_at_unique(fm, symbol@, sym_i as int);
    }
    let inst_k = match find_instance(&from[sym_i].stocks, instance) {
        Option::None => {
            return Result::Err(ContractError::StockNotFound);
        },
        Option::Some(k) => k,
    };
    proof {
        lemma_cats_count_lower(fm, instance@, sym_i as int);
        assert(has_inst(fm[sym_i as int].stocks, instance@));
        let ka = inst_at(fm[sym_i as int].stocks, instance@);
        assert(0 <= ka < fm[sym_i as int].stocks.len() && fm[sym_i as int].stocks[ka]
            == instance@);
        lemma_count_unique(fm[sym_i as int].stocks, instance@, inst_k as int, ka);
    }
    from[sym_i].stocks.remove(inst_k);
    proof {
        lemma_insts_model_remove(old(from)@[sym_i as int].stocks@, inst_k as int);
        lemma_cats_model_update(old(from)@, sym_i as int, from@[sym_i as int]);
        assert(cats_model(from@) =~~= remove_inst(fm, symbol@, instance@));
    }
    let ghost tm = cats_model(to@);
    match find_symbol(to, symbol) {
        Option::Some(j) => {
            proof {
                lemma_cat_at_unique(tm, symbol@, j as int);
            }
            to[j].stocks.push(instance.clone());
        },
        Option::None => {
            let mut fresh: Vec<String> = Vec::new();
            fresh.push(instance.clone());
            to.push(StockCategory { symbol: symbol.clone(), stocks: fresh });
        },
    }
    proof {
        assert(cats_model(to@) =~~= add_inst(tm, symbol@, instance@));
    }
    Result::Ok(())
}

/// Buy one instance: move it out of the unowned pool into the buyer's
/// holdings, creating the buyer's record and category as needed. Fails with
/// `StockNotFound`, leaving the ledger untouched, when the pool does not
/// hold the instance under the symbol. Conservation: no address's total
/// occurrence count changes.
pub fn buy_stock(
    store: &mut Store,
    sender: &String,
    token_symbol: &String,
    stock_address: &String,
) -> (r: Result<Response, ContractError>)
    requires
        wf(old(store)@),
    ensures
        wf(final(store)@),
        match r {
            Result::Ok(resp) => {
                &&& cat_has(old(store)@.unbought, token_symbol@, stock_address@)
                &&& final(store)@ == buy_spec(
                    old(store)@,
                    sender@,
                    token_symbol@,
                    stock_address@,
                )
                &&& forall|a: Seq<char>|
                    total_count(final(store)@, a) == total_count(old(store)@, a)
                &&& resp.requests@.len() == 0
                &&& resp.attributes@.len() == 4
                &&& resp.attributes@[0].key@ == "action"@ && resp.attributes@[0].value@
                    == "buy_stock"@
                &&& resp.attributes@[1].key@ == "buyer"@ && resp.attributes@[1].value@ == sender@
                &&& resp.attributes@[2].key@ == "symbol"@ && resp.attributes@[2].value@
                    == token_symbol@
                &&& resp.attributes@[3].key@ == "stock_address"@ && resp.attributes@[3].value@
                    == stock_address@
            },
            Result::Err(e) => {
                &&& e == ContractError::StockNotFound
                &&& !cat_has(old(store)@.unbought, token_symbol@, stock_address@)
                &&& final(store)@ == old(store)@
            },
        },
{
    let pool_i = match find_symbol(&store.unbought_stocks, token_symbol) {
        Option::None => {
            return Result::Err(ContractError::StockNotFound);
        },
        Option::Some(i) => i,
    };
    proof {
        lemma_cat_at_unique(old(store)@.unbought, token_symbol@, pool_i as int);
    }
    match find_instance(&store.unbought_stocks[pool_i].stocks, stock_address) {
        Option::None => {
            return Result::Err(ContractError::StockNotFound);
        },
        Option::Some(_) => {},
    }
    let oi = match find_owner(&store.bought_stocks, sender) {
        Option::Some(i) => i,
        Option::None => {
            let n = store.bought_stocks.len();
            store.bought_stocks.push(
                OwnerHoldings { owner: sender.clone(), categories: Vec::new() },
            );
            n
        },
    };
    proof {
        assert(total_count(old(store)@, stock_address@) <= 1);
        let bm = holdings_model(store.bought_stocks@);
        assert(cats_model(store.bought_stocks@[oi as int].categories@) == bm[oi as int].cats);
        if has_owner(old(store)@.bought, sender@) {
            assert(bm[oi as int].cats == old(store)@.bought[oi as int].cats);
            assert(syms_unique(old(store)@.bought[oi as int].cats));
        } else {
            assert(bm[oi as int].cats =~= Seq::<CatModel>::empty());
        }
    }
    let tr = transfer(
        &mut store.unbought_stocks,
        &mut store.bought_stocks[oi].categories,
        token_symbol,
        stock_address,
    );
    match tr {
        Result::Err(e) => {
            // The lookups above guarantee the transfer succeeds; this arm
            // is provably unreachable.
            proof {
                assert(false);
            }
            Result::Err(e)
        },
        Result::Ok(_) => {
            proof {
                let s0 = old(store)@;
                let sym = token_symbol@;
                let inst = stock_address@;
                let buyer = sender@;
                if has_owner(s0.bought, buyer) {
                    lemma_owner_at_unique(s0.bought, buyer, oi as int);
                } else {
                    assert(holdings_model(store.bought_stocks@)[oi as int].owner == buyer);
                }
                assert(holdings_model(store.bought_stocks@) =~~= add_to_holdings(
                    s0.bought,
                    buyer,
                    sym,
                    inst,
                ));
                assert(store@ =~~= buy_spec(s0, buyer, sym, inst));
                // well-formedness of the result
                lemma_remove_inst_syms(s0.unbought, sym, inst);
                if has_owner(s0.bought, buyer) {
                    lemma_add_inst_syms(s0.bought[oi as int].cats, sym, inst);
                    assert forall|i: int| 0 <= i < store@.bought.len() implies syms_unique(
                        #[trigger] store@.bought[i].cats,
                    ) by {
                        if i != oi as int {
                            assert(store@.bought[i] == s0.bought[i]);
                        }
                    }
                } else {
                    assert forall|i: int| 0 <= i < store@.bought.len() implies syms_unique(
                        #[trigger] store@.bought[i].cats,
                    ) by {
                        if i < s0.bought.len() {
                            assert(store@.bought[i] == s0.bought[i]);
                        }
                    }
                }
                assert forall|a: Seq<char>|
                    total_count(store@, a) == total_count(s0, a) by {
                    lemma_remove_inst_count(s0.unbought, sym, inst, a);
                    lemma_add_to_holdings_count(s0.bought, buyer, sym, inst, a);
                }
                assert forall|a: Seq<char>| total_count(store@, a) <= 1 by {
                    assert(total_count(s0, a) <= 1);
                }
            }
            let mut attributes: Vec<Attribute> = Vec::new();
            attributes.push(
                Attribute { key: "action".to_owned(), value: "buy_stock".to_owned() },
            );
            attributes.push(Attribute { key: "buyer".to_owned(), value: sender.clone() });
            attributes.push(Attribute { key: "symbol".to_owned(), value: token_symbol.clone() });
            attributes.push(
                Attribute { key: "stock_address".to_owned(), value: stock_address.clone() },
            );
            Result::Ok(Response { requests: Vec::new(), attributes })
        },
    }
}

/// Sell one instance: move it out of the seller's holdings back into the
/// unowned pool, creating the pool category as needed. Fails with
/// `StockNotFound`, leaving the ledger untouched, when the seller has no
/// holdings record, no category of the symbol, or no such instance in it.
/// Conservation: no address's total occurrence count changes.
pub fn sell_stock(
    store: &mut Store,
    sender: &String,
    token_symbol: &String,
    stock_address: &String,
) -> (r: Result<Response, ContractError>)
    requires
        wf(old(store)@),
    ensures
        wf(final(store)@),
        match r {
            Result::Ok(resp) => {
                &&& holdings_has(old(store)@.bought, sender@, token_symbol@, stock_address@)
                &&& final(store)@ == sell_spec(
                    old(store)@,
                    sender@,
                    token_symbol@,
                    stock_address@,
                )
                &&& forall|a: Seq<char>|
                    total_count(final(store)@, a) == total_count(old(store)@, a)
                &&& resp.requests@.len() == 0
                &&& resp.attributes@.len() == 4
                &&& resp.attributes@[0].key@ == "action"@ && resp.attributes@[0].value@
                    == "sell_stock"@
                &&& resp.attributes@[1].key@ == "seller"@ && resp.attributes@[1].value@ == sender@
                &&& resp.attributes@[2].key@ == "token_symbol"@ && resp.attributes@[2].value@
                    == token_symbol@
                &&& resp.attributes@[3].key@ == "stock_address"@ && resp.attributes@[3].value@
                    == stock_address@
            },
            Result::Err(e) => {
                &&& e == ContractError::StockNotFound
                &&& !holdings_has(old(store)@.bought, sender@, token_symbol@, stock_address@)
                &&& final(store)@ == old(store)@
            },
        },
{
    let oi = match find_owner(&store.bought_stocks, sender) {
        Option::None => {
            return Result::Err(ContractError::StockNotFound);
        },
        Option::Some(i) => i,
    };
    proof {
        lemma_owner_at_unique(old(store)@.bought, sender@, oi as int);
    }
    let sym_i = match find_symbol(&store.bought_stocks[oi].categories, token_symbol) {
        Option::None => {
            return Result::Err(ContractError::StockNotFound);
        },
        Option::Some(i) => i,
    };
    proof {
        lemma_cat_at_unique(old(store)@.bought[oi as int].cats, token_symbol@, sym_i as int);
    }
    match find_instance(&store.bought_stocks[oi].categories[sym_i].stocks, stock_address) {
        Option::None => {
            return Result::Err(ContractError::StockNotFound);
        },
        Option::Some(_) => {},
    }
    proof {
        assert(total_count(old(store)@, stock_address@) <= 1);
        lemma_holdings_count_lower(old(store)@.bought, stock_address@, oi as int);
    }
    let tr = transfer(
        &mut store.bought_stocks[oi].categories,
        &mut store.unbought_stocks,
        token_symbol,
        stock_address,
    );
    match tr {
        Result::Err(e) => {
            // The lookups above guarantee the transfer succeeds; this arm
            // is provably unreachable.
            proof {
                assert(false);
            }
            Result::Err(e)
        },
        Result::Ok(_) => {
            proof {
                let s0 = old(store)@;
                let sym = token_symbol@;
                let inst = stock_address@;
                let seller = sender@;
                assert(holdings_model(store.bought_stocks@) =~~= remove_from_holdings(
                    s0.bought,
                    seller,
                    sym,
                    inst,
                ));
                assert(store@ =~~= sell_spec(s0, seller, sym, inst));
                lemma_add_inst_syms(s0.unbought, sym, inst);
                lemma_remove_inst_syms(s0.bought[oi as int].cats, sym, inst);
                assert forall|i: int| 0 <= i < store@.bought.len() implies syms_unique(
                    #[trigger] store@.bought[i].cats,
                ) by {
                    if i != oi as int {
                        assert(store@.bought[i] == s0.bought[i]);
                    }
                }
                assert forall|a: Seq<char>|
                    total_count(store@, a) == total_count(s0, a) by {
                    lemma_remove_from_holdings_count(s0.bought, seller, sym, inst, a);
                    lemma_add_inst_count(s0.unbought, sym, inst, a);
                }
                assert forall|a: Seq<char>| total_count(store@, a) <= 1 by {
                    assert(total_count(s0, a) <= 1);
                }
            }
            let mut attributes: Vec<Attribute> = Vec::new();
            attributes.push(
                Attribute { key: "action".to_owned(), value: "sell_stock".to_owned() },
            );
            attributes.push(Attribute { key: "seller".to_owned(), value: sender.clone() });
            attributes.push(
                Attribute { key: "token_symbol".to_owned(), value: token_symbol.clone() },
            );
            attributes.push(
                Attribute { key: "stock_address".to_owned(), value: stock_address.clone() },
            );
            Result::Ok(Response { requests: Vec::new(), attributes })
        },
    }
}

/// The value of the first attribute carrying `key`, if any.
fn find_attr_value(attrs: &Vec<Attribute>, key: &String) -> (r: Option<String>)
    ensures
        match r {
            Option::Some(v) => first_attr(attrs_model(attrs@), key@) == Option::Some(v@),
            Option::None => first_attr(attrs_model(attrs@), key@) is None,
        },
{
    let ghost am = attrs_model(attrs@);
    proof {
        assert(am.skip(0) =~= am);
    }
    let mut i: usize = 0;
    while i < attrs.len()
        invariant
            i <= attrs@.len(),
            am == attrs_model(attrs@),
            first_attr(am, key@) == first_attr(am.skip(i as int), key@),
        decreases attrs@.len() - i,
    {
        proof {
            assert(am.skip(i as int).first() == am[i as int]);
        }
        if attrs[i].key == *key {
            return Option::Some(attrs[i].value.clone());
        }
        proof {
            assert(am.skip(i as int).drop_first() =~= am.skip(i as int + 1));
        }
        i = i + 1;
    }
    proof {
        assert(am.skip(attrs@.len() as int) =~= Seq::<EventAttrModel>::empty());
    }
    Option::None
}

/// The symbol carried by the first creation (`wasm`) event's `token_symbol`
/// attribute, if both exist.
fn find_wasm_symbol(events: &Vec<Event>) -> (r: Option<String>)
    ensures
        match r {
            Option::Some(s) => wasm_symbol(events_model(events@)) == Option::Some(s@),
            Option::None => wasm_symbol(events_model(events@)) is None,
        },
{
    let ghost em = events_model(events@);
    proof {
        assert(em.skip(0) =~= em);
    }
    let wasm_ty: String = "wasm".to_owned();
    let token_symbol_key: String = "token_symbol".to_owned();
    let mut i: usize = 0;
    while i < events.len()
        invariant
            i <= events@.len(),
            em == events_model(events@),
            wasm_ty@ == "wasm"@,
            token_symbol_key@ == "token_symbol"@,
            wasm_symbol(em) == wasm_symbol(em.skip(i as int)),
        decreases events@.len() - i,
    {
        proof {
            assert(em.skip(i as int).first() == em[i as int]);
        }
        if events[i].ty == wasm_ty {
            return find_attr_value(&events[i].attributes, &token_symbol_key);
        }
        proof {
            assert(em.skip(i as int).drop_first() =~= em.skip(i as int + 1));
        }
        i = i + 1;
    }
    proof {
        assert(em.skip(events@.len() as int) =~= Seq::<EventModel>::empty());
    }
    Option::None
}

/// Append `instance` to the category of `symbol`, creating it if absent.
fn add_instance(cats: &mut Vec<StockCategory>, symbol: &String, instance: String)
    requires
        syms_unique(cats_model(old(cats)@)),
    ensures
        cats_model(final(cats)@) == add_inst(cats_model(old(cats)@), symbol@, instance@),
{
    let ghost tm = cats_model(cats@);
    match find_symbol(cats, symbol) {
        Option::Some(j) => {
            proof {
                lemma_cat_at_unique(tm, symbol@, j as int);
            }
            cats[j].stocks.push(instance);
        },
        Option::None => {
            let mut fresh: Vec<String> = Vec::new();
            fresh.push(instance);
            cats.push(StockCategory { symbol: symbol.clone(), stocks: fresh });
        },
    }
    proof {
        assert(cats_model(cats@) =~~= add_inst(tm, symbol@, instance@));
    }
}

/// Complete an asynchronous mint: extract the symbol from the creation
/// event of the completion notice and register the new instance's address
/// into the unowned pool. Fails with `NoField`, leaving the ledger
/// untouched, when the creation event or its symbol attribute is missing.
/// A fresh address keeps the ledger well-formed; its count rises from zero
/// to one and no other count changes.
pub fn register_completion(
    store: &mut Store,
    contract_address: String,
    events: &Vec<Event>,
) -> (r: Result<Response, ContractError>)
    requires
        wf(old(store)@),
    ensures
        total_count(old(store)@, contract_address@) == 0 ==> wf(final(store)@),
        match r {
            Result::Ok(resp) => {
                &&& wasm_symbol(events_model(events@)) is Some
                &&& final(store)@ == register_spec(
                    old(store)@,
                    wasm_symbol(events_model(events@))->Some_0,
                    contract_address@,
                )
                &&& forall|a: Seq<char>|
                    total_count(final(store)@, a) == total_count(old(store)@, a) + (if a
                        == contract_address@ {
                        1nat
                    } else {
                        0nat
                    })
                &&& resp.requests@.len() == 0
                &&& resp.attributes@.len() == 3
                &&& resp.attributes@[0].key@ == "action"@
                &&& resp.attributes@[1].key@ == "token_symbol"@ && resp.attributes@[1].value@
                    == wasm_symbol(events_model(events@))->Some_0
                &&& resp.attributes@[2].key@ == "stock_address"@ && resp.attributes@[2].value@
                    == contract_address@
            },
            Result::Err(e) => {
                &&& e == ContractError::NoField
                &&& wasm_symbol(events_model(events@)) is None
                &&& final(store)@ == old(store)@
            },
        },
{
    let tok = match find_wasm_symbol(events) {
        Option::None => {
            return Result::Err(ContractError::NoField);
        },
        Option::Some(s) => s,
    };
    let ghost s0 = store@;
    add_instance(&mut store.unbought_stocks, &tok, contract_address.clone());
    proof {
        assert(store@ =~~= register_spec(s0, tok@, contract_address@));
        lemma_add_inst_syms(s0.unbought, tok@, contract_address@);
        assert forall|a: Seq<char>|
            total_count(store@, a) == total_count(s0, a) + (if a == contract_address@ {
                1nat
            } else {
                0nat
            }) by {
            lemma_add_inst_count(s0.unbought, tok@, contract_address@, a);
        }
        if total_count(s0, contract_address@) == 0 {
            assert forall|a: Seq<char>| total_count(store@, a) <= 1 by {
                assert(total_count(s0, a) <= 1);
            }
        }
    }
    let mut attributes: Vec<Attribute> = Vec::new();
    attributes.push(
        Attribute { key: "action".to_owned(), value: "Stored new stock NFT".to_owned() },
    );
    attributes.push(Attribute { key: "token_symbol".to_owned(), value: tok });
    attributes.push(Attribute { key: "stock_address".to_owned(), value: contract_address });
    Result::Ok(Response { requests: Vec::new(), attributes })
}

/// Issue a creation request to the external factory: the request carries the
/// descriptive payload and the fixed correlation id, and targets the class
/// the ledger was initialized with. The ledger itself is not touched and no
/// record of the pending request is kept.
pub fn mint_stock(
    store: &Store,
    token_name: String,
    token_symbol: String,
    price_per_share: u64,
    stocks: u64,
) -> (r: Result<Response, ContractError>)
    ensures
        match r {
            Result::Ok(resp) => {
                &&& resp.requests@.len() == 1
                &&& resp.requests@[0].id == INSTANTIATE_TOKEN_ID
                &&& resp.requests@[0].code_id == store@.code_id
                &&& resp.requests@[0].msg.token_name@ == token_name@
                &&& resp.requests@[0].msg.token_symbol@ == token_symbol@
                &&& resp.requests@[0].msg.price_per_share == price_per_share
                &&& resp.requests@[0].msg.stocks == stocks
                &&& resp.attributes@.len() == 3
                &&& resp.attributes@[0].key@ == "action"@ && resp.attributes@[0].value@
                    == "Stock minted"@
                &&& resp.attributes@[1].key@ == "stock name"@ && resp.attributes@[1].value@
                    == token_name@
                &&& resp.attributes@[2].key@ == "symbol"@ && resp.attributes@[2].value@
                    == token_symbol@
            },
            Result::Err(_) => false,
        },
{
    let request = MintRequest {
        id: INSTANTIATE_TOKEN_ID,
        code_id: store.nft_code_id,
        msg: MintMsg {
            token_name: token_name.clone(),
            token_symbol: token_symbol.clone(),
            price_per_share,
            stocks,
        },
    };
    let mut requests: Vec<MintRequest> = Vec::new();
    requests.push(request);
    let mut attributes: Vec<Attribute> = Vec::new();
    attributes.push(Attribute { key: "action".to_owned(), value: "Stock minted".to_owned() });
    attributes.push(Attribute { key: "stock name".to_owned(), value: token_name });
    attributes.push(Attribute { key: "symbol".to_owned(), value: token_symbol });
    Result::Ok(Response { requests, attributes })
}

/// Dispatch one mutating operation to its handler.
pub fn execute(store: &mut Store, sender: &String, msg: ExecuteMsg) -> (r: Result<
    Response,
    ContractError,
>)
    requires
        wf(old(store)@),
    ensures
        wf(final(store)@),
        match msg {
            ExecuteMsg::MintStock { token_name, token_symbol, price_per_share, stocks } => {
                &&& final(store)@ == old(store)@
                &&& r is Ok
                &&& r->Ok_0.requests@.len() == 1
                &&& r->Ok_0.requests@[0].id == INSTANTIATE_TOKEN_ID
                &&& r->Ok_0.requests@[0].code_id == old(store)@.code_id
                &&& r->Ok_0.requests@[0].msg.token_name@ == token_name@
                &&& r->Ok_0.requests@[0].msg.token_symbol@ == token_symbol@
                &&& r->Ok_0.requests@[0].msg.price_per_share == price_per_share
                &&& r->Ok_0.requests@[0].msg.stocks == stocks
                &&& r->Ok_0.attributes@.len() == 3
                &&& r->Ok_0.attributes@[0].key@ == "action"@ && r->Ok_0.attributes@[0].value@
                    == "Stock minted"@
                &&& r->Ok_0.attributes@[1].key@ == "stock name"@ && r->Ok_0.attributes@[1].value@
                    == token_name@
                &&& r->Ok_0.attributes@[2].key@ == "symbol"@ && r->Ok_0.attributes@[2].value@
                    == token_symbol@
            },
            ExecuteMsg::BuyStock { token_symbol, stock_address } => match r {
                Result::Ok(resp) => {
                    &&& cat_has(old(store)@.unbought, token_symbol@, stock_address@)
                    &&& final(store)@ == buy_spec(
                        old(store)@,
                        sender@,
                        token_symbol@,
                        stock_address@,
                    )
                    &&& resp.requests@.len() == 0
                    &&& resp.attributes@.len() == 4
                    &&& resp.attributes@[0].key@ == "action"@ && resp.attributes@[0].value@
                        == "buy_stock"@
                    &&& resp.attributes@[1].key@ == "buyer"@ && resp.attributes@[1].value@
                        == sender@
                    &&& resp.attributes@[2].key@ == "symbol"@ && resp.attributes@[2].value@
                        == token_symbol@
                    &&& resp.attributes@[3].key@ == "stock_address"@ && resp.attributes@[3].value@
                        == stock_address@
                },
                Result::Err(e) => {
                    &&& e == ContractError::StockNotFound
                    &&& !cat_has(old(store)@.unbought, token_symbol@, stock_address@)
                    &&& final(store)@ == old(store)@
                },
            },
            ExecuteMsg::SellStock { token_symbol, stock_address } => match r {
                Result::Ok(resp) => {
                    &&& holdings_has(old(store)@.bought, sender@, token_symbol@, stock_address@)
                    &&& final(store)@ == sell_spec(
                        old(store)@,
                        sender@,
                        token_symbol@,
                        stock_address@,
                    )
                    &&& resp.requests@.len() == 0
                    &&& resp.attributes@.len() == 4
                    &&& resp.attributes@[0].key@ == "action"@ && resp.attributes@[0].value@
                        == "sell_stock"@
                    &&& resp.attributes@[1].key@ == "seller"@ && resp.attributes@[1].value@
                        == sender@
                    &&& resp.attributes@[2].key@ == "token_symbol"@ && resp.attributes@[2].value@
                        == token_symbol@
                    &&& resp.attributes@[3].key@ == "stock_address"@ && resp.attributes@[3].value@
                        == stock_address@
                },
                Result::Err(e) => {
                    &&& e == ContractError::StockNotFound
                    &&& !holdings_has(old(store)@.bought, sender@, token_symbol@, stock_address@)
                    &&& final(store)@ == old(store)@
                },
            },
        },
{
    match msg {
        ExecuteMsg::MintStock { token_name, token_symbol, price_per_share, stocks } => mint_stock(
            store,
            token_name,
            token_symbol,
            price_per_share,
            stocks,
        ),
        ExecuteMsg::BuyStock { token_symbol, stock_address } => buy_stock(
            store,
            sender,
            &token_symbol,
            &stock_address,
        ),
        ExecuteMsg::SellStock { token_symbol, stock_address } => sell_stock(
            store,
            sender,
            &token_symbol,
            &stock_address,
        ),
    }
}

#[verifier::external_type_specification]
#[verifier::external_body]
pub struct ExReply(cosmwasm_std::Reply);

/// The address the notice's protobuf acknowledgement decodes to, if it
/// decodes: what cw_utils::parse_reply_instantiate_data yields, a function
/// of the notice alone.
pub uninterp spec fn parsed_addr_of(msg: cosmwasm_std::Reply) -> Option<Seq<char>>;

/// The events a completion notice carries: those of a successful result,
/// none of a failed one. A function of the notice alone.
pub uninterp spec fn events_of(msg: cosmwasm_std::Reply) -> Seq<EventModel>;

/// Relies on cw_utils::parse_reply_instantiate_data: it decodes the protobuf
/// acknowledgement carried by an instantiate completion notice; on success
/// the decoded `contract_address` is the new instance's address, and on
/// failure it reports why. The decode depends on the notice alone.
#[verifier::external_body]
fn parse_instantiate_reply(msg: &cosmwasm_std::Reply) -> (r: Result<String, String>)
    ensures
        match r {
            Result::Ok(a) => parsed_addr_of(*msg) == Option::Some(a@),
            Result::Err(_) => parsed_addr_of(*msg) is None,
        },
{
    match cw_utils::parse_reply_instantiate_data(msg.clone()) {
        Ok(d) => Ok(d.contract_address),
        Err(e) => Err(format!("{}", e)),
    }
}

/// Relies on cosmwasm_std::Reply: a successful completion notice carries the
/// events emitted during the creation, converted here one for one; a failed
/// notice carries none.
#[verifier::external_body]
fn reply_events(msg: &cosmwasm_std::Reply) -> (r: Vec<Event>)
    ensures
        events_model(r@) == events_of(*msg),
{
    match &msg.result {
        cosmwasm_std::SubMsgResult::Ok(resp) => resp.events.iter().map(
            |e| Event {
                ty: e.ty.clone(),
                attributes: e.attributes.iter().map(
                    |a| Attribute { key: a.key.clone(), value: a.value.clone() },
                ).collect(),
            },
        ).collect(),
        cosmwasm_std::SubMsgResult::Err(_) => Vec::new(),
    }
}

/// Handle a completion notice as the host delivers it. It succeeds exactly
/// when the acknowledgement decodes to an address and the notice's creation
/// event carries the symbol; the address is then registered under that
/// symbol. Any failure — an undecodable acknowledgement (surfaced as a
/// pass-through error) or a missing event or attribute (`NoField`) — leaves
/// the ledger untouched.
pub fn reply(store: &mut Store, msg: &cosmwasm_std::Reply) -> (r: Result<Response, ContractError>)
    requires
        wf(old(store)@),
    ensures
        r is Ok <==> parsed_addr_of(*msg) is Some && wasm_symbol(events_of(*msg)) is Some,
        r is Ok ==> final(store)@ == register_spec(
            old(store)@,
            wasm_symbol(events_of(*msg))->Some_0,
            parsed_addr_of(*msg)->Some_0,
        ),
        r is Err ==> final(store)@ == old(store)@,
        r is Err ==> (if parsed_addr_of(*msg) is None {
            r->Err_0 is Std
        } else {
            r->Err_0 == ContractError::NoField
        }),
{
    let addr = match parse_instantiate_reply(msg) {
        Result::Err(e) => {
            return Result::Err(ContractError::Std(e));
        },
        Result::Ok(a) => a,
    };
    let events = reply_events(msg);
    register_completion(store, addr, &events)
}

/// The shape of the describe read each instance answers.
pub struct NFTDetails {
    pub get_details: GetDetails,
}

/// The (empty) payload of a describe read.
pub struct GetDetails {}

/// Every address of a collection, flattened in traversal order: the
/// external describe reads a listing must perform, one per instance.
pub fn stock_addresses(cats: &Vec<StockCategory>) -> (r: Vec<String>)
    ensures
        insts_model(r@) == flat_insts(cats_model(cats@)),
{
    let ghost cm = cats_model(cats@);
    let mut out: Vec<String> = Vec::new();
    proof {
        assert(cm.take(0) =~= Seq::<CatModel>::empty());
        assert(insts_model(out@) =~= flat_insts(cm.take(0)));
    }
    let mut i: usize = 0;
    while i < cats.len()
        invariant
            i <= cats@.len(),
            cm == cats_model(cats@),
            insts_model(out@) == flat_insts(cm.take(i as int)),
        decreases cats@.len() - i,
    {
        let mut k: usize = 0;
        proof {
            assert(cm[i as int].stocks.take(0) =~= Seq::<Seq<char>>::empty());
            assert(insts_model(out@) =~= flat_insts(cm.take(i as int)) + cm[i as int].stocks.take(
                0,
            ));
        }
        while k < cats[i].stocks.len()
            invariant
                i < cats@.len(),
                k <= cm[i as int].stocks.len(),
                cm == cats_model(cats@),
                insts_model(out@) == flat_insts(cm.take(i as int)) + cm[i as int].stocks.take(
                    k as int,
                ),
            decreases cm[i as int].stocks.len() - k,
        {
            let ghost pre = insts_model(out@);
            out.push(cats[i].stocks[k].clone());
            proof {
                assert(insts_model(out@) =~= pre.push(cm[i as int].stocks[k as int]));
                assert(cm[i as int].stocks.take(k as int + 1) =~= cm[i as int].stocks.take(
                    k as int,
                ).push(cm[i as int].stocks[k as int]));
                assert(insts_model(out@) =~= flat_insts(cm.take(i as int))
                    + cm[i as int].stocks.take(k as int + 1));
            }
            k = k + 1;
        }
        proof {
            assert(cm[i as int].stocks.take(cm[i as int].stocks.len() as int) =~= cm[
                i as int
            ].stocks);
            lemma_flat_take_succ(cm, i as int);
            assert(insts_model(out@) =~= flat_insts(cm.take(i as int + 1)));
        }
        i = i + 1;
    }
    proof {
        assert(cm.take(cats@.len() as int) =~= cm);
    }
    out
}

/// Assemble a listing: pair every instance of `cats`, in flattened
/// traversal order, with the matching entry of `details`.
fn assemble_stocks(cats: &Vec<StockCategory>, details: &Vec<ContractInfo>) -> (r:
    AllStocksResponse)
    requires
        infos_model(details@).len() == flat_insts(cats_model(cats@)).len(),
    ensures
        assembled(cats_model(cats@), infos_model(details@), r@),
{
    let ghost cm = cats_model(cats@);
    let ghost dm = infos_model(details@);
    let dn = details.len();
    let mut stocks: Vec<SymbolStock> = Vec::new();
    let mut d: usize = 0;
    let mut i: usize = 0;
    proof {
        assert(cm.take(0) =~= Seq::<CatModel>::empty());
    }
    while i < cats.len()
        invariant
            i <= cats@.len(),
            cm == cats_model(cats@),
            dm == infos_model(details@),
            dn == details@.len() && dn == dm.len(),
            dm.len() == flat_insts(cm).len(),
            d == flat_insts(cm.take(i as int)).len(),
            assembled(cm.take(i as int), dm, sym_stocks_model(stocks@)),
        decreases cats@.len() - i,
    {
        proof {
            lemma_flat_take_succ(cm, i as int);
            lemma_flat_take_le(cm, i as int + 1);
        }
        let mut infos: Vec<StockInfo> = Vec::new();
        let mut k: usize = 0;
        while k < cats[i].stocks.len()
            invariant
                i < cats@.len(),
                k <= cm[i as int].stocks.len(),
                cm == cats_model(cats@),
                dm == infos_model(details@),
                dn == details@.len() && dn == dm.len(),
                d + cm[i as int].stocks.len() <= dn,
                infos@.len() == k,
                forall|k2: int|
                    0 <= k2 < k ==> {
                        &&& (#[trigger] infos@[k2])@.address == cm[i as int].stocks[k2]
                        &&& infos@[k2]@.contract_info == dm[d + k2]
                    },
            decreases cm[i as int].stocks.len() - k,
        {
            infos.push(
                StockInfo {
                    address: cats[i].stocks[k].clone(),
                    contract_info: details[d + k].clone(),
                },
            );
            k = k + 1;
        }
        let ghost sm_pre = sym_stocks_model(stocks@);
        let ghost im = infos@;
        let entry = SymbolStock { symbol: cats[i].symbol.clone(), stock_info: infos };
        let ghost nv = entry@;
        stocks.push(entry);
        proof {
            let sm = sym_stocks_model(stocks@);
            assert(sm =~= sm_pre.push(nv));
            assert(nv.symbol == cm[i as int].symbol);
            assert(nv.stock_info =~= im.map_values(|x: StockInfo| x@));
            assert(nv.stock_info.len() == cm[i as int].stocks.len());
            assert forall|i2: int| 0 <= i2 <= i as int implies #[trigger] cm.take(
                i as int + 1,
            ).take(i2) =~= cm.take(i2) by {}
            assert forall|i2: int| 0 <= i2 <= i as int implies #[trigger] cm.take(i as int).take(
                i2,
            ) =~= cm.take(i2) by {}
            assert(cm.take(i as int + 1).len() == i as int + 1);
            assert forall|i2: int| 0 <= i2 < i as int + 1 implies {
                &&& (#[trigger] sm[i2]).symbol == cm.take(i as int + 1)[i2].symbol
                &&& sm[i2].stock_info.len() == cm.take(i as int + 1)[i2].stocks.len()
            } by {
                if i2 < i as int {
                    assert(sm[i2] == sym_stocks_model(stocks@)[i2]);
                }
            }
            assert(assembled(cm.take(i as int + 1), dm, sm));
        }
        d = d + cats[i].stocks.len();
        i = i + 1;
    }
    proof {
        assert(cm.take(cats@.len() as int) =~= cm);
    }
    AllStocksResponse { stocks }
}

/// List one owner's holdings, pairing each instance with the details the
/// caller fetched, one per instance in the order `stock_addresses` gives.
/// Fails when the owner has no holdings record at all; an absent record is
/// distinct from an empty one.
pub fn bought_stocks(store: &Store, address: &String, details: &Vec<ContractInfo>) -> (r: Result<
    AllStocksResponse,
    ContractError,
>)
    requires
        wf(store@),
        has_owner(store@.bought, address@) ==> infos_model(details@).len() == flat_insts(
            holdings_of(store@.bought, address@),
        ).len(),
    ensures
        match r {
            Result::Ok(resp) => {
                &&& has_owner(store@.bought, address@)
                &&& assembled(
                    holdings_of(store@.bought, address@),
                    infos_model(details@),
                    resp@,
                )
            },
            Result::Err(e) => {
                &&& !has_owner(store@.bought, address@)
                &&& e is Std
            },
        },
{
    let oi = match find_owner(&store.bought_stocks, address) {
        Option::None => {
            return Result::Err(ContractError::Std("holdings not found".to_owned()));
        },
        Option::Some(i) => i,
    };
    proof {
        lemma_owner_at_unique(store@.bought, address@, oi as int);
    }
    Result::Ok(assemble_stocks(&store.bought_stocks[oi].categories, details))
}

/// List the unowned pool, pairing each instance with the details the caller
/// fetched, one per instance in the order `stock_addresses` gives.
pub fn unbought_stocks(store: &Store, details: &Vec<ContractInfo>) -> (r: AllStocksResponse)
    requires
        infos_model(details@).len() == flat_insts(store@.unbought).len(),
    ensures
        assembled(store@.unbought, infos_model(details@), r@),
{
    assemble_stocks(&store.unbought_stocks, details)
}

} // verus!
