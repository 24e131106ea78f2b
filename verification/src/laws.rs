use vstd::prelude::*;

use crate::state::{
    add_inst, add_to_holdings, buy_spec, cat_at, cat_has, cats_count, has_inst, has_owner, has_sym, holdings_has,
    holdings_of, inst_at, lemma_add_inst_count, lemma_add_inst_syms, lemma_add_to_holdings_count,
    lemma_cat_at_unique, lemma_cats_count_lower, lemma_count_ge_one, lemma_holdings_count_lower,
    lemma_owner_at_unique, lemma_remove_from_holdings_count, lemma_remove_inst_count,
    lemma_remove_inst_syms, owner_at, owners_unique, sell_spec, syms_unique,
    total_count, wf, CatModel, HoldingModel, StoreModel,
};

verus! {

/// One ledger mutation, as a caller would attempt it.
pub enum LedgerOp {
    Buy { buyer: Seq<char>, symbol: Seq<char>, instance: Seq<char> },
    Sell { seller: Seq<char>, symbol: Seq<char>, instance: Seq<char> },
}

/// Does the operation succeed on this state?
pub open spec fn op_enabled(s: StoreModel, op: LedgerOp) -> bool {
    match op {
        LedgerOp::Buy { buyer, symbol, instance } => cat_has(s.unbought, symbol, instance),
        LedgerOp::Sell { seller, symbol, instance } => holdings_has(
            s.bought,
            seller,
            symbol,
            instance,
        ),
    }
}

/// The state after attempting one operation: a failing operation leaves the
/// state unchanged.
pub open spec fn apply_op(s: StoreModel, op: LedgerOp) -> StoreModel {
    if op_enabled(s, op) {
        match op {
            LedgerOp::Buy { buyer, symbol, instance } => buy_spec(s, buyer, symbol, instance),
            LedgerOp::Sell { seller, symbol, instance } => sell_spec(s, seller, symbol, instance),
        }
    } else {
        s
    }
}

/// The state after attempting a whole sequence of operations in order.
pub open spec fn apply_ops(s: StoreModel, ops: Seq<LedgerOp>) -> StoreModel
    decreases ops.len(),
{
    if ops.len() == 0 {
        s
    } else {
        apply_ops(apply_op(s, ops.first()), ops.drop_first())
    }
}

/// One buy or sell, successful or failing, changes no address's total
/// occurrence count across the pool and all holdings.
pub proof fn lemma_op_conserves(s: StoreModel, op: LedgerOp, a: Seq<char>)
    ensures
        total_count(apply_op(s, op), a) == total_count(s, a),
{
    if op_enabled(s, op) {
        match op {
            LedgerOp::Buy { buyer, symbol, instance } => {
                lemma_remove_inst_count(s.unbought, symbol, instance, a);
                lemma_add_to_holdings_count(s.bought, buyer, symbol, instance, a);
            },
            LedgerOp::Sell { seller, symbol, instance } => {
                lemma_remove_from_holdings_count(s.bought, seller, symbol, instance, a);
                lemma_add_inst_count(s.unbought, symbol, instance, a);
            },
        }
    }
}

/// Conservation: after any sequence of buys and sells, every address occurs
/// exactly as often as before.
pub proof fn lemma_ops_conserve(s: StoreModel, ops: Seq<LedgerOp>, a: Seq<char>)
    ensures
        total_count(apply_ops(s, ops), a) == total_count(s, a),
    decreases ops.len(),
{
    if ops.len() > 0 {
        lemma_op_conserves(s, ops.first(), a);
        lemma_ops_conserve(apply_op(s, ops.first()), ops.drop_first(), a);
    }
}

/// Conservation for a registered instance: an address that occurs exactly
/// once — in the pool or in exactly one owner's holdings — still occurs
/// exactly once after any sequence of buys and sells; it is never lost and
/// never duplicated.
pub proof fn lemma_registered_exactly_once(s: StoreModel, ops: Seq<LedgerOp>, a: Seq<char>)
    requires
        total_count(s, a) == 1,
    ensures
        total_count(apply_ops(s, ops), a) == 1,
{
    lemma_ops_conserve(s, ops, a);
}

/// One buy or sell keeps the ledger well-formed: symbols and owners stay
/// unique, and no address is ever duplicated.
pub proof fn lemma_op_preserves_wf(s: StoreModel, op: LedgerOp)
    requires
        wf(s),
    ensures
        wf(apply_op(s, op)),
{
    let s2 = apply_op(s, op);
    if op_enabled(s, op) {
        match op {
            LedgerOp::Buy { buyer, symbol, instance } => {
                lemma_remove_inst_syms(s.unbought, symbol, instance);
                lemma_holdings_wf(s.bought, buyer, symbol, instance);
            },
            LedgerOp::Sell { seller, symbol, instance } => {
                lemma_add_inst_syms(s.unbought, symbol, instance);
                let i = owner_at(s.bought, seller);
                assert(0 <= i < s.bought.len() && s.bought[i].owner == seller);
                lemma_remove_inst_syms(s.bought[i].cats, symbol, instance);
                assert forall|j: int| 0 <= j < s2.bought.len() implies syms_unique(
                    #[trigger] s2.bought[j].cats,
                ) by {
                    if j != i {
                        assert(s2.bought[j] == s.bought[j]);
                    }
                }
            },
        }
        assert forall|a: Seq<char>| total_count(s2, a) <= 1 by {
            lemma_op_conserves(s, op, a);
            assert(total_count(s, a) <= 1);
        }
    }
}

/// Adding to holdings keeps owners unique and every holder's symbols unique.
proof fn lemma_holdings_wf(
    hs: Seq<HoldingModel>,
    owner: Seq<char>,
    sym: Seq<char>,
    inst: Seq<char>,
)
    requires
        owners_unique(hs),
        forall|i: int| 0 <= i < hs.len() ==> syms_unique(#[trigger] hs[i].cats),
    ensures
        owners_unique(add_to_holdings(hs, owner, sym, inst)),
        forall|i: int|
            0 <= i < add_to_holdings(hs, owner, sym, inst).len() ==> syms_unique(
                #[trigger] add_to_holdings(hs, owner, sym, inst)[i].cats,
            ),
{
    let r = add_to_holdings(hs, owner, sym, inst);
    if has_owner(hs, owner) {
        let i = owner_at(hs, owner);
        assert(0 <= i < hs.len() && hs[i].owner == owner);
        lemma_add_inst_syms(hs[i].cats, sym, inst);
        assert forall|j: int| 0 <= j < r.len() implies syms_unique(#[trigger] r[j].cats) by {
            if j != i {
                assert(r[j] == hs[j]);
            }
        }
    } else {
        assert forall|j: int| 0 <= j < r.len() implies syms_unique(#[trigger] r[j].cats) by {
            if j < hs.len() {
                assert(r[j] == hs[j]);
            }
        }
    }
}

/// Well-formedness holds at every state a sequence of buys and sells
/// reaches from a well-formed ledger.
pub proof fn lemma_ops_preserve_wf(s: StoreModel, ops: Seq<LedgerOp>)
    requires
        wf(s),
    ensures
        wf(apply_ops(s, ops)),
    decreases ops.len(),
{
    if ops.len() > 0 {
        lemma_op_preserves_wf(s, ops.first());
        lemma_ops_preserve_wf(apply_op(s, ops.first()), ops.drop_first());
    }
}

/// An address held somewhere under a symbol is counted at least once.
pub proof fn lemma_cat_has_count(cats: Seq<CatModel>, sym: Seq<char>, x: Seq<char>)
    requires
        cat_has(cats, sym, x),
    ensures
        cats_count(cats, x) >= 1,
{
    let i = cat_at(cats, sym);
    assert(0 <= i < cats.len() && cats[i].symbol == sym);
    let k = inst_at(cats[i].stocks, x);
    assert(0 <= k < cats[i].stocks.len() && cats[i].stocks[k] == x);
    lemma_count_ge_one(cats[i].stocks, x, k);
    lemma_cats_count_lower(cats, x, i);
}

/// Registering an address makes it present under its symbol.
pub proof fn lemma_add_inst_has(cats: Seq<CatModel>, sym: Seq<char>, x: Seq<char>)
    requires
        syms_unique(cats),
    ensures
        cat_has(add_inst(cats, sym, x), sym, x),
{
    let r = add_inst(cats, sym, x);
    lemma_add_inst_syms(cats, sym, x);
    if has_sym(cats, sym) {
        let i = cat_at(cats, sym);
        assert(0 <= i < cats.len() && cats[i].symbol == sym);
        lemma_cat_at_unique(r, sym, i);
        assert(r[i].stocks.last() == x);
        assert(has_inst(r[i].stocks, x));
    } else {
        let i = cats.len() as int;
        lemma_cat_at_unique(r, sym, i);
        assert(r[i].stocks[0] == x);
        assert(has_inst(r[i].stocks, x));
    }
}

/// Round trip: a buy followed by the matching sell returns the instance to
/// the pool under its symbol, and leaves the buyer's holdings without it.
pub proof fn lemma_round_trip(s: StoreModel, b: Seq<char>, sym: Seq<char>, inst: Seq<char>)
    requires
        wf(s),
        cat_has(s.unbought, sym, inst),
    ensures
        holdings_has(buy_spec(s, b, sym, inst).bought, b, sym, inst),
        cat_has(sell_spec(buy_spec(s, b, sym, inst), b, sym, inst).unbought, sym, inst),
        !holdings_has(sell_spec(buy_spec(s, b, sym, inst), b, sym, inst).bought, b, sym, inst),
{
    let s1 = buy_spec(s, b, sym, inst);
    let s2 = sell_spec(s1, b, sym, inst);

    // After the buy, the buyer holds the instance under the symbol.
    if has_owner(s.bought, b) {
        let i = owner_at(s.bought, b);
        assert(0 <= i < s.bought.len() && s.bought[i].owner == b);
        assert(forall|j: int|
            0 <= j < s1.bought.len() ==> #[trigger] s1.bought[j].owner == s.bought[j].owner);
        lemma_owner_at_unique(s1.bought, b, i);
        lemma_add_inst_has(s.bought[i].cats, sym, inst);
        assert(holdings_of(s1.bought, b) == add_inst(s.bought[i].cats, sym, inst));
    } else {
        let i = s.bought.len() as int;
        assert(forall|j: int|
            0 <= j < s.bought.len() ==> #[trigger] s1.bought[j].owner == s.bought[j].owner);
        lemma_owner_at_unique(s1.bought, b, i);
        let cats = seq![CatModel { symbol: sym, stocks: seq![inst] }];
        assert(holdings_of(s1.bought, b) == cats);
        lemma_cat_at_unique(cats, sym, 0);
        assert(cats[0].stocks[0] == inst);
        assert(has_inst(cats[0].stocks, inst));
    }
    assert(holdings_has(s1.bought, b, sym, inst));

    // After the sell, the instance is back in the pool under the symbol.
    lemma_remove_inst_syms(s.unbought, sym, inst);
    lemma_add_inst_has(s1.unbought, sym, inst);

    // The buyer's holdings no longer contain the instance: its single
    // occurrence is accounted for by the pool.
    lemma_cat_has_count(s.unbought, sym, inst);
    assert(total_count(s, inst) == 1);
    lemma_remove_inst_count(s.unbought, sym, inst, inst);
    lemma_add_to_holdings_count(s.bought, b, sym, inst, inst);
    assert(total_count(s1, inst) == 1);
    lemma_remove_from_holdings_count(s1.bought, b, sym, inst, inst);
    lemma_add_inst_count(s1.unbought, sym, inst, inst);
    assert(total_count(s2, inst) == 1);
    lemma_cat_has_count(s2.unbought, sym, inst);
    assert(cats_count(s2.unbought, inst) >= 1);
    assert(!holdings_has(s2.bought, b, sym, inst)) by {
        if holdings_has(s2.bought, b, sym, inst) {
            let j = owner_at(s2.bought, b);
            assert(0 <= j < s2.bought.len() && s2.bought[j].owner == b);
            lemma_cat_has_count(s2.bought[j].cats, sym, inst);
            lemma_holdings_count_lower(s2.bought, inst, j);
        }
    }
}

} // verus!
