use vstd::prelude::*;

verus! {

// ---------------------------------------------------------------------------
// Persisted state
// ---------------------------------------------------------------------------

/// The configuration slot: set once at initialization, never mutated here.
#[derive(Debug)]
pub struct Config {
    pub admin: String,
}

/// A group of stock instances sharing one symbol. Instance order carries no
/// meaning but is preserved exactly by every operation.
#[derive(Debug)]
pub struct StockCategory {
    pub symbol: String,
    pub stocks: Vec<String>,
}

/// The categories held by one owner. An owner appears here only after a
/// first successful buy; an absent owner is distinct from an owner with
/// only empty categories.
#[derive(Debug)]
pub struct OwnerHoldings {
    pub owner: String,
    pub categories: Vec<StockCategory>,
}

/// The four persisted slots of the ledger: configuration, the unowned pool,
/// per-owner holdings, and the factory class identifier.
#[derive(Debug)]
pub struct Store {
    pub config: Config,
    pub unbought_stocks: Vec<StockCategory>,
    pub bought_stocks: Vec<OwnerHoldings>,
    pub nft_code_id: u64,
}

// ---------------------------------------------------------------------------
// Mathematical model
// ---------------------------------------------------------------------------

/// Model of one category: a symbol and the addresses grouped under it.
#[verifier::ext_equal]
pub struct CatModel {
    pub symbol: Seq<char>,
    pub stocks: Seq<Seq<char>>,
}

/// Model of one owner's holdings.
#[verifier::ext_equal]
pub struct HoldingModel {
    pub owner: Seq<char>,
    pub cats: Seq<CatModel>,
}

/// Model of the whole persisted state.
#[verifier::ext_equal]
pub struct StoreModel {
    pub admin: Seq<char>,
    pub code_id: u64,
    pub unbought: Seq<CatModel>,
    pub bought: Seq<HoldingModel>,
}

/// The model of a list of addresses.
pub open spec fn insts_model(ss: Seq<String>) -> Seq<Seq<char>> {
    ss.map_values(|a: String| a@)
}

/// The model of a list of categories.
pub open spec fn cats_model(cs: Seq<StockCategory>) -> Seq<CatModel> {
    cs.map_values(|c: StockCategory| c@)
}

/// The model of all owners' holdings.
pub open spec fn holdings_model(hs: Seq<OwnerHoldings>) -> Seq<HoldingModel> {
    hs.map_values(|h: OwnerHoldings| h@)
}

impl View for StockCategory {
    type V = CatModel;

    open spec fn view(&self) -> CatModel {
        CatModel { symbol: self.symbol@, stocks: insts_model(self.stocks@) }
    }
}

impl View for OwnerHoldings {
    type V = HoldingModel;

    open spec fn view(&self) -> HoldingModel {
        HoldingModel { owner: self.owner@, cats: cats_model(self.categories@) }
    }
}

impl View for Store {
    type V = StoreModel;

    open spec fn view(&self) -> StoreModel {
        StoreModel {
            admin: self.config.admin@,
            code_id: self.nft_code_id,
            unbought: cats_model(self.unbought_stocks@),
            bought: holdings_model(self.bought_stocks@),
        }
    }
}

// ---------------------------------------------------------------------------
// Lookups (first-match semantics; under well-formedness the match is unique)
// ---------------------------------------------------------------------------

pub open spec fn has_sym(cats: Seq<CatModel>, sym: Seq<char>) -> bool {
    exists|i: int| 0 <= i < cats.len() && cats[i].symbol == sym
}

pub open spec fn cat_at(cats: Seq<CatModel>, sym: Seq<char>) -> int {
    choose|i: int| 0 <= i < cats.len() && cats[i].symbol == sym
}

pub open spec fn has_inst(stocks: Seq<Seq<char>>, inst: Seq<char>) -> bool {
    exists|k: int| 0 <= k < stocks.len() && stocks[k] == inst
}

pub open spec fn inst_at(stocks: Seq<Seq<char>>, inst: Seq<char>) -> int {
    choose|k: int| 0 <= k < stocks.len() && stocks[k] == inst
}

/// Does the collection hold `inst` under the category of `sym`?
pub open spec fn cat_has(cats: Seq<CatModel>, sym: Seq<char>, inst: Seq<char>) -> bool {
    has_sym(cats, sym) && has_inst(cats[cat_at(cats, sym)].stocks, inst)
}

pub open spec fn has_owner(hs: Seq<HoldingModel>, owner: Seq<char>) -> bool {
    exists|i: int| 0 <= i < hs.len() && hs[i].owner == owner
}

pub open spec fn owner_at(hs: Seq<HoldingModel>, owner: Seq<char>) -> int {
    choose|i: int| 0 <= i < hs.len() && hs[i].owner == owner
}

pub open spec fn holdings_of(hs: Seq<HoldingModel>, owner: Seq<char>) -> Seq<CatModel> {
    hs[owner_at(hs, owner)].cats
}

/// Does `owner` hold `inst` under the category of `sym`?
pub open spec fn holdings_has(
    hs: Seq<HoldingModel>,
    owner: Seq<char>,
    sym: Seq<char>,
    inst: Seq<char>,
) -> bool {
    has_owner(hs, owner) && cat_has(holdings_of(hs, owner), sym, inst)
}

// ---------------------------------------------------------------------------
// Transitions
// ---------------------------------------------------------------------------

/// Append `inst` to the category of `sym`, creating the category if absent.
pub open spec fn add_inst(cats: Seq<CatModel>, sym: Seq<char>, inst: Seq<char>) -> Seq<CatModel> {
    if has_sym(cats, sym) {
        let i = cat_at(cats, sym);
        cats.update(i, CatModel { symbol: cats[i].symbol, stocks: cats[i].stocks.push(inst) })
    } else {
        cats.push(CatModel { symbol: sym, stocks: seq![inst] })
    }
}

/// Remove one occurrence of `inst` from the category of `sym`. The category
/// record stays behind even when it becomes empty. Meaningful only when
/// `cat_has(cats, sym, inst)`.
pub open spec fn remove_inst(cats: Seq<CatModel>, sym: Seq<char>, inst: Seq<char>) -> Seq<
    CatModel,
> {
    let i = cat_at(cats, sym);
    let c = cats[i];
    cats.update(i, CatModel { symbol: c.symbol, stocks: c.stocks.remove(inst_at(c.stocks, inst)) })
}

/// Append `inst` under `sym` to `owner`'s holdings, creating the owner's
/// record and the category as needed.
pub open spec fn add_to_holdings(
    hs: Seq<HoldingModel>,
    owner: Seq<char>,
    sym: Seq<char>,
    inst: Seq<char>,
) -> Seq<HoldingModel> {
    if has_owner(hs, owner) {
        let i = owner_at(hs, owner);
        hs.update(i, HoldingModel { owner: hs[i].owner, cats: add_inst(hs[i].cats, sym, inst) })
    } else {
        hs.push(HoldingModel { owner: owner, cats: seq![CatModel { symbol: sym, stocks: seq![inst] }] })
    }
}

/// Remove one occurrence of `inst` under `sym` from `owner`'s holdings.
/// Meaningful only when `holdings_has(hs, owner, sym, inst)`.
pub open spec fn remove_from_holdings(
    hs: Seq<HoldingModel>,
    owner: Seq<char>,
    sym: Seq<char>,
    inst: Seq<char>,
) -> Seq<HoldingModel> {
    let i = owner_at(hs, owner);
    hs.update(i, HoldingModel { owner: hs[i].owner, cats: remove_inst(hs[i].cats, sym, inst) })
}

/// A successful buy: the instance leaves the pool and joins the buyer.
pub open spec fn buy_spec(
    s: StoreModel,
    buyer: Seq<char>,
    sym: Seq<char>,
    inst: Seq<char>,
) -> StoreModel {
    StoreModel {
        unbought: remove_inst(s.unbought, sym, inst),
        bought: add_to_holdings(s.bought, buyer, sym, inst),
        ..s
    }
}

/// A successful sell: the instance leaves the seller and rejoins the pool.
pub open spec fn sell_spec(
    s: StoreModel,
    seller: Seq<char>,
    sym: Seq<char>,
    inst: Seq<char>,
) -> StoreModel {
    StoreModel {
        unbought: add_inst(s.unbought, sym, inst),
        bought: remove_from_holdings(s.bought, seller, sym, inst),
        ..s
    }
}

/// A completed mint: the fresh instance is registered into the pool.
pub open spec fn register_spec(s: StoreModel, sym: Seq<char>, inst: Seq<char>) -> StoreModel {
    StoreModel { unbought: add_inst(s.unbought, sym, inst), ..s }
}

// ---------------------------------------------------------------------------
// Occurrence counting and well-formedness
// ---------------------------------------------------------------------------

/// How often `inst` occurs in one category's instance list.
pub open spec fn count_in(stocks: Seq<Seq<char>>, inst: Seq<char>) -> nat
    decreases stocks.len(),
{
    if stocks.len() == 0 {
        0
    } else {
        (if stocks.last() == inst {
            1nat
        } else {
            0nat
        }) + count_in(stocks.drop_last(), inst)
    }
}

/// How often `inst` occurs across a collection of categories.
pub open spec fn cats_count(cats: Seq<CatModel>, inst: Seq<char>) -> nat
    decreases cats.len(),
{
    if cats.len() == 0 {
        0
    } else {
        count_in(cats.last().stocks, inst) + cats_count(cats.drop_last(), inst)
    }
}

/// How often `inst` occurs across all owners' holdings.
pub open spec fn holdings_count(hs: Seq<HoldingModel>, inst: Seq<char>) -> nat
    decreases hs.len(),
{
    if hs.len() == 0 {
        0
    } else {
        cats_count(hs.last().cats, inst) + holdings_count(hs.drop_last(), inst)
    }
}

/// How often `inst` occurs in the whole ledger: unowned pool plus holdings.
pub open spec fn total_count(s: StoreModel, inst: Seq<char>) -> nat {
    cats_count(s.unbought, inst) + holdings_count(s.bought, inst)
}

/// All addresses of a collection, flattened in traversal order: these are
/// the external reads a listing must perform, one per instance.
pub open spec fn flat_insts(cats: Seq<CatModel>) -> Seq<Seq<char>>
    decreases cats.len(),
{
    if cats.len() == 0 {
        Seq::empty()
    } else {
        flat_insts(cats.drop_last()) + cats.last().stocks
    }
}

/// One more category flattens to one more block of addresses.
pub proof fn lemma_flat_take_succ(cats: Seq<CatModel>, i: int)
    requires
        0 <= i < cats.len(),
    ensures
        flat_insts(cats.take(i + 1)) == flat_insts(cats.take(i)) + cats[i].stocks,
{
    assert(cats.take(i + 1).drop_last() =~= cats.take(i));
    assert(cats.take(i + 1).last() == cats[i]);
}

/// A prefix flattens to no more addresses than the whole.
pub proof fn lemma_flat_take_le(cats: Seq<CatModel>, i: int)
    requires
        0 <= i <= cats.len(),
    ensures
        flat_insts(cats.take(i)).len() <= flat_insts(cats).len(),
    decreases cats.len() - i,
{
    if i == cats.len() {
        assert(cats.take(i) =~= cats);
    } else {
        lemma_flat_take_succ(cats, i);
        lemma_flat_take_le(cats, i + 1);
    }
}

pub open spec fn syms_unique(cats: Seq<CatModel>) -> bool {
    forall|i: int, j: int|
        0 <= i < cats.len() && 0 <= j < cats.len() && i != j ==> cats[i].symbol != cats[j].symbol
}

pub open spec fn owners_unique(hs: Seq<HoldingModel>) -> bool {
    forall|i: int, j: int|
        0 <= i < hs.len() && 0 <= j < hs.len() && i != j ==> hs[i].owner != hs[j].owner
}

/// Well-formedness of the ledger: symbols are unique within the pool and
/// within each owner's holdings, owners are unique, and every address occurs
/// at most once across the whole ledger (the conservation invariant).
pub open spec fn wf(s: StoreModel) -> bool {
    &&& syms_unique(s.unbought)
    &&& owners_unique(s.bought)
    &&& forall|i: int| 0 <= i < s.bought.len() ==> syms_unique(#[trigger] s.bought[i].cats)
    &&& forall|inst: Seq<char>| total_count(s, inst) <= 1
}

// ---------------------------------------------------------------------------
// Lemmas about counting and uniqueness
// ---------------------------------------------------------------------------

/// An address that occurs somewhere in a list occurs at least once.
pub proof fn lemma_count_ge_one(stocks: Seq<Seq<char>>, inst: Seq<char>, k: int)
    requires
        0 <= k < stocks.len(),
        stocks[k] == inst,
    ensures
        count_in(stocks, inst) >= 1,
    decreases stocks.len(),
{
    if k == stocks.len() - 1 {
    } else {
        assert(stocks.drop_last()[k] == stocks[k]);
        lemma_count_ge_one(stocks.drop_last(), inst, k);
    }
}

/// In a list where an address occurs at most once, two occurrences coincide.
pub proof fn lemma_count_unique(stocks: Seq<Seq<char>>, inst: Seq<char>, k1: int, k2: int)
    requires
        count_in(stocks, inst) <= 1,
        0 <= k1 < stocks.len(),
        0 <= k2 < stocks.len(),
        stocks[k1] == inst,
        stocks[k2] == inst,
    ensures
        k1 == k2,
    decreases stocks.len(),
{
    if k1 != k2 {
        let last = stocks.len() - 1;
        if k1 == last {
            assert(stocks.drop_last()[k2] == stocks[k2]);
            lemma_count_ge_one(stocks.drop_last(), inst, k2);
        } else if k2 == last {
            assert(stocks.drop_last()[k1] == stocks[k1]);
            lemma_count_ge_one(stocks.drop_last(), inst, k1);
        } else {
            assert(stocks.drop_last()[k1] == stocks[k1]);
            assert(stocks.drop_last()[k2] == stocks[k2]);
            lemma_count_unique(stocks.drop_last(), inst, k1, k2);
        }
    }
}

/// Appending an address raises its count by one and no other count.
pub proof fn lemma_count_in_push(stocks: Seq<Seq<char>>, x: Seq<char>, inst: Seq<char>)
    ensures
        count_in(stocks.push(x), inst) == count_in(stocks, inst) + (if x == inst {
            1nat
        } else {
            0nat
        }),
{
    assert(stocks.push(x).drop_last() =~= stocks);
}

/// Removing the address at one index lowers its count by one and no other.
pub proof fn lemma_count_in_remove(stocks: Seq<Seq<char>>, k: int, inst: Seq<char>)
    requires
        0 <= k < stocks.len(),
    ensures
        count_in(stocks.remove(k), inst) + (if stocks[k] == inst {
            1nat
        } else {
            0nat
        }) == count_in(stocks, inst),
    decreases stocks.len(),
{
    if k == stocks.len() - 1 {
        assert(stocks.remove(k) =~= stocks.drop_last());
    } else {
        assert(stocks.remove(k).drop_last() =~= stocks.drop_last().remove(k));
        assert(stocks.remove(k).last() == stocks.last());
        assert(stocks.drop_last()[k] == stocks[k]);
        lemma_count_in_remove(stocks.drop_last(), k, inst);
    }
}

/// A collection counts at least what any one of its categories counts.
pub proof fn lemma_cats_count_lower(cats: Seq<CatModel>, inst: Seq<char>, i: int)
    requires
        0 <= i < cats.len(),
    ensures
        cats_count(cats, inst) >= count_in(cats[i].stocks, inst),
    decreases cats.len(),
{
    if i == cats.len() - 1 {
    } else {
        assert(cats.drop_last()[i] == cats[i]);
        lemma_cats_count_lower(cats.drop_last(), inst, i);
    }
}

/// The holdings count at least what any one owner's categories count.
pub proof fn lemma_holdings_count_lower(hs: Seq<HoldingModel>, inst: Seq<char>, i: int)
    requires
        0 <= i < hs.len(),
    ensures
        holdings_count(hs, inst) >= cats_count(hs[i].cats, inst),
    decreases hs.len(),
{
    if i == hs.len() - 1 {
    } else {
        assert(hs.drop_last()[i] == hs[i]);
        lemma_holdings_count_lower(hs.drop_last(), inst, i);
    }
}

/// Replacing one category changes a collection's count by the difference of
/// the two categories' counts.
pub proof fn lemma_cats_count_update(cats: Seq<CatModel>, i: int, c: CatModel, inst: Seq<char>)
    requires
        0 <= i < cats.len(),
    ensures
        cats_count(cats.update(i, c), inst) + count_in(cats[i].stocks, inst) == cats_count(
            cats,
            inst,
        ) + count_in(c.stocks, inst),
    decreases cats.len(),
{
    if i == cats.len() - 1 {
        assert(cats.update(i, c).drop_last() =~= cats.drop_last());
        assert(cats.update(i, c).last() == c);
    } else {
        assert(cats.update(i, c).drop_last() =~= cats.drop_last().update(i, c));
        assert(cats.update(i, c).last() == cats.last());
        assert(cats.drop_last()[i] == cats[i]);
        lemma_cats_count_update(cats.drop_last(), i, c, inst);
    }
}

/// Appending a category adds that category's count.
pub proof fn lemma_cats_count_push(cats: Seq<CatModel>, c: CatModel, inst: Seq<char>)
    ensures
        cats_count(cats.push(c), inst) == cats_count(cats, inst) + count_in(c.stocks, inst),
{
    assert(cats.push(c).drop_last() =~= cats);
}

/// Replacing one owner's record changes the holdings count by the difference
/// of the two records' counts.
pub proof fn lemma_holdings_count_update(
    hs: Seq<HoldingModel>,
    i: int,
    h: HoldingModel,
    inst: Seq<char>,
)
    requires
        0 <= i < hs.len(),
    ensures
        holdings_count(hs.update(i, h), inst) + cats_count(hs[i].cats, inst) == holdings_count(
            hs,
            inst,
        ) + cats_count(h.cats, inst),
    decreases hs.len(),
{
    if i == hs.len() - 1 {
        assert(hs.update(i, h).drop_last() =~= hs.drop_last());
        assert(hs.update(i, h).last() == h);
    } else {
        assert(hs.update(i, h).drop_last() =~= hs.drop_last().update(i, h));
        assert(hs.update(i, h).last() == hs.last());
        assert(hs.drop_last()[i] == hs[i]);
        lemma_holdings_count_update(hs.drop_last(), i, h, inst);
    }
}

/// Appending an owner's record adds that record's count.
pub proof fn lemma_holdings_count_push(hs: Seq<HoldingModel>, h: HoldingModel, inst: Seq<char>)
    ensures
        holdings_count(hs.push(h), inst) == holdings_count(hs, inst) + cats_count(h.cats, inst),
{
    assert(hs.push(h).drop_last() =~= hs);
}

/// Registering an address raises its count by one and no other count.
pub proof fn lemma_add_inst_count(
    cats: Seq<CatModel>,
    sym: Seq<char>,
    x: Seq<char>,
    inst: Seq<char>,
)
    ensures
        cats_count(add_inst(cats, sym, x), inst) == cats_count(cats, inst) + (if x == inst {
            1nat
        } else {
            0nat
        }),
{
    if has_sym(cats, sym) {
        let i = cat_at(cats, sym);
        assert(0 <= i < cats.len() && cats[i].symbol == sym);
        let c = CatModel { symbol: cats[i].symbol, stocks: cats[i].stocks.push(x) };
        lemma_count_in_push(cats[i].stocks, x, inst);
        lemma_cats_count_update(cats, i, c, inst);
    } else {
        let c = CatModel { symbol: sym, stocks: seq![x] };
        lemma_cats_count_push(cats, c, inst);
        lemma_count_in_singleton(x, inst);
    }
}

/// The count in a one-element list.
pub proof fn lemma_count_in_singleton(x: Seq<char>, inst: Seq<char>)
    ensures
        count_in(seq![x], inst) == (if x == inst {
            1nat
        } else {
            0nat
        }),
{
    let s = seq![x];
    assert(s.len() == 1);
    assert(s.last() == x);
    assert(s.drop_last() =~= Seq::<Seq<char>>::empty());
    assert(count_in(Seq::<Seq<char>>::empty(), inst) == 0);
}

/// The count in a one-category collection.
pub proof fn lemma_cats_count_singleton(c: CatModel, inst: Seq<char>)
    ensures
        cats_count(seq![c], inst) == count_in(c.stocks, inst),
{
    let s = seq![c];
    assert(s.len() == 1);
    assert(s.last() == c);
    assert(s.drop_last() =~= Seq::<CatModel>::empty());
    assert(cats_count(Seq::<CatModel>::empty(), inst) == 0);
}

/// Withdrawing an address lowers its count by one and no other count.
pub proof fn lemma_remove_inst_count(
    cats: Seq<CatModel>,
    sym: Seq<char>,
    x: Seq<char>,
    inst: Seq<char>,
)
    requires
        cat_has(cats, sym, x),
    ensures
        cats_count(remove_inst(cats, sym, x), inst) + (if x == inst {
            1nat
        } else {
            0nat
        }) == cats_count(cats, inst),
{
    let i = cat_at(cats, sym);
    assert(0 <= i < cats.len() && cats[i].symbol == sym);
    let k = inst_at(cats[i].stocks, x);
    assert(0 <= k < cats[i].stocks.len() && cats[i].stocks[k] == x);
    let c = CatModel { symbol: cats[i].symbol, stocks: cats[i].stocks.remove(k) };
    lemma_count_in_remove(cats[i].stocks, k, inst);
    lemma_cats_count_update(cats, i, c, inst);
}

/// A buy or a registration into holdings raises the address's count by one
/// and no other count.
pub proof fn lemma_add_to_holdings_count(
    hs: Seq<HoldingModel>,
    owner: Seq<char>,
    sym: Seq<char>,
    x: Seq<char>,
    inst: Seq<char>,
)
    ensures
        holdings_count(add_to_holdings(hs, owner, sym, x), inst) == holdings_count(hs, inst) + (
        if x == inst {
            1nat
        } else {
            0nat
        }),
{
    if has_owner(hs, owner) {
        let i = owner_at(hs, owner);
        assert(0 <= i < hs.len() && hs[i].owner == owner);
        let h = HoldingModel { owner: hs[i].owner, cats: add_inst(hs[i].cats, sym, x) };
        lemma_add_inst_count(hs[i].cats, sym, x, inst);
        lemma_holdings_count_update(hs, i, h, inst);
    } else {
        let c = CatModel { symbol: sym, stocks: seq![x] };
        let h = HoldingModel { owner: owner, cats: seq![c] };
        lemma_holdings_count_push(hs, h, inst);
        lemma_cats_count_singleton(c, inst);
        lemma_count_in_singleton(x, inst);
    }
}

/// A sell out of holdings lowers the address's count by one and no other.
pub proof fn lemma_remove_from_holdings_count(
    hs: Seq<HoldingModel>,
    owner: Seq<char>,
    sym: Seq<char>,
    x: Seq<char>,
    inst: Seq<char>,
)
    requires
        holdings_has(hs, owner, sym, x),
    ensures
        holdings_count(remove_from_holdings(hs, owner, sym, x), inst) + (if x == inst {
            1nat
        } else {
            0nat
        }) == holdings_count(hs, inst),
{
    let i = owner_at(hs, owner);
    assert(0 <= i < hs.len() && hs[i].owner == owner);
    let h = HoldingModel { owner: hs[i].owner, cats: remove_inst(hs[i].cats, sym, x) };
    lemma_remove_inst_count(hs[i].cats, sym, x, inst);
    lemma_holdings_count_update(hs, i, h, inst);
}

/// Registration keeps symbols unique.
pub proof fn lemma_add_inst_syms(cats: Seq<CatModel>, sym: Seq<char>, x: Seq<char>)
    requires
        syms_unique(cats),
    ensures
        syms_unique(add_inst(cats, sym, x)),
{
    if has_sym(cats, sym) {
        let i = cat_at(cats, sym);
        assert(0 <= i < cats.len() && cats[i].symbol == sym);
        assert forall|j: int| 0 <= j < cats.len() implies #[trigger] add_inst(cats, sym, x)[j].symbol
            == cats[j].symbol by {}
    } else {
        let r = cats.push(CatModel { symbol: sym, stocks: seq![x] });
        assert forall|j: int| 0 <= j < cats.len() implies #[trigger] r[j].symbol
            == cats[j].symbol by {}
    }
}

/// Withdrawal keeps symbols unique (the symbols do not change at all).
pub proof fn lemma_remove_inst_syms(cats: Seq<CatModel>, sym: Seq<char>, x: Seq<char>)
    requires
        syms_unique(cats),
        cat_has(cats, sym, x),
    ensures
        syms_unique(remove_inst(cats, sym, x)),
        remove_inst(cats, sym, x).len() == cats.len(),
{
    let i = cat_at(cats, sym);
    assert(0 <= i < cats.len() && cats[i].symbol == sym);
    assert forall|j: int| 0 <= j < cats.len() implies #[trigger] remove_inst(cats, sym, x)[j].symbol
        == cats[j].symbol by {}
}

// ---------------------------------------------------------------------------
// The model of a mutated vector
// ---------------------------------------------------------------------------

pub proof fn lemma_insts_model_remove(ss: Seq<String>, k: int)
    requires
        0 <= k < ss.len(),
    ensures
        insts_model(ss.remove(k)) =~= insts_model(ss).remove(k),
{
}

pub proof fn lemma_cats_model_update(cs: Seq<StockCategory>, i: int, c: StockCategory)
    requires
        0 <= i < cs.len(),
    ensures
        cats_model(cs.update(i, c)) =~= cats_model(cs).update(i, c@),
{
}

/// With unique symbols, any index whose category carries the symbol is the
/// index the lookup returns.
pub proof fn lemma_cat_at_unique(cats: Seq<CatModel>, sym: Seq<char>, i: int)
    requires
        syms_unique(cats),
        0 <= i < cats.len(),
        cats[i].symbol == sym,
    ensures
        has_sym(cats, sym),
        cat_at(cats, sym) == i,
{
    assert(has_sym(cats, sym));
    let j = cat_at(cats, sym);
    assert(0 <= j < cats.len() && cats[j].symbol == sym);
}

/// With unique owners, any index whose record carries the owner is the index
/// the lookup returns.
pub proof fn lemma_owner_at_unique(hs: Seq<HoldingModel>, owner: Seq<char>, i: int)
    requires
        owners_unique(hs),
        0 <= i < hs.len(),
        hs[i].owner == owner,
    ensures
        has_owner(hs, owner),
        owner_at(hs, owner) == i,
{
    assert(has_owner(hs, owner));
    let j = owner_at(hs, owner);
    assert(0 <= j < hs.len() && hs[j].owner == owner);
}

} // verus!
