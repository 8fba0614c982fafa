//! The instrument registry and the market authority that alone mutates it.

use crate::message::{PriceUpdate, RejectReason, StockTransaction, TradeKind, TradeOutcome, TradeResult};
use crate::pricing::{buy_price_for, buy_price_of, move_price, moved_price, MIN_MARKUP_PERCENT};
use vstd::prelude::*;

verus! {

/// One tradable instrument and its inventory.
#[derive(Clone, Debug)]
pub struct Stock {
    pub id: String,
    pub name: String,
    /// In cents.
    pub sell_price: u32,
    /// In cents.
    pub buy_price: u64,
    /// Units that can be bought.
    pub available_stock: u32,
    /// Units bought and not yet sold back.
    pub held_stock: u32,
}

impl Stock {
    /// The units of the instrument, available and held.
    pub open spec fn total(&self) -> int {
        self.available_stock as int + self.held_stock as int
    }

    /// A positive price, and a total that a `u32` can count.
    pub open spec fn wf(&self) -> bool {
        &&& self.sell_price > 0
        &&& self.total() <= u32::MAX as int
    }

    /// The instrument with other inventory counts.
    pub open spec fn with_counts(self, available: int, held: int) -> Stock {
        Stock { available_stock: available as u32, held_stock: held as u32, ..self }
    }

    /// The instrument with other prices.
    pub open spec fn with_prices(self, sell: u32, buy: int) -> Stock {
        Stock { sell_price: sell, buy_price: buy as u64, ..self }
    }

    /// A field-by-field copy.
    pub fn copy(&self) -> (r: Stock)
        ensures
            r == *self,
    {
        Stock {
            id: self.id.clone(),
            name: self.name.clone(),
            sell_price: self.sell_price,
            buy_price: self.buy_price,
            available_stock: self.available_stock,
            held_stock: self.held_stock,
        }
    }
}

/// Some instrument in `s` has the identifier `id`.
pub open spec fn lists(s: Seq<Stock>, id: Seq<char>) -> bool {
    exists|i: int| 0 <= i < s.len() && (#[trigger] s[i]).id@ == id
}

/// The position of the instrument with identifier `id`.
pub open spec fn position(s: Seq<Stock>, id: Seq<char>) -> int
    recommends
        lists(s, id),
{
    choose|i: int| 0 <= i < s.len() && (#[trigger] s[i]).id@ == id
}

/// No two instruments share an identifier.
pub open spec fn ids_unique(s: Seq<Stock>) -> bool {
    forall|i: int, j: int|
        0 <= i < s.len() && 0 <= j < s.len() && (#[trigger] s[i]).id@ == (#[trigger] s[j]).id@
            ==> i == j
}

/// A registry that the authority can work on.
pub open spec fn registry_wf(s: Seq<Stock>) -> bool {
    &&& ids_unique(s)
    &&& forall|i: int| 0 <= i < s.len() ==> (#[trigger] s[i]).wf()
}

/// What buying `q` units of `id` yields: the instrument afterwards, or why not.
pub open spec fn buy_outcome(s: Seq<Stock>, id: Seq<char>, q: u32) -> Result<Stock, RejectReason> {
    if !lists(s, id) {
        Err(RejectReason::UnknownInstrument)
    } else {
        let st = s[position(s, id)];
        if q <= st.available_stock {
            Ok(st.with_counts(st.available_stock - q, st.held_stock + q))
        } else {
            Err(RejectReason::InsufficientAvailable)
        }
    }
}

/// What selling `q` units of `id` yields: the instrument afterwards, or why not.
pub open spec fn sell_outcome(s: Seq<Stock>, id: Seq<char>, q: u32) -> Result<Stock, RejectReason> {
    if !lists(s, id) {
        Err(RejectReason::UnknownInstrument)
    } else {
        let st = s[position(s, id)];
        if q <= st.held_stock {
            Ok(st.with_counts(st.available_stock + q, st.held_stock - q))
        } else {
            Err(RejectReason::InsufficientHeld)
        }
    }
}

/// The registry after an outcome for `id`: changed only where it succeeded.
pub open spec fn after(s: Seq<Stock>, id: Seq<char>, o: Result<Stock, RejectReason>) -> Seq<Stock> {
    match o {
        Ok(st) => s.update(position(s, id), st),
        Err(_) => s,
    }
}

/// What applying one action yields.
pub open spec fn outcome_of(s: Seq<Stock>, tx: StockTransaction) -> Result<Stock, RejectReason> {
    match tx.action {
        TradeKind::Buy => buy_outcome(s, tx.id@, tx.quantity),
        TradeKind::Sell => sell_outcome(s, tx.id@, tx.quantity),
    }
}

/// The registry after one action.
pub open spec fn step(s: Seq<Stock>, tx: StockTransaction) -> Seq<Stock> {
    after(s, tx.id@, outcome_of(s, tx))
}

/// The answer to one action applied to `s`.
pub open spec fn result_for(s: Seq<Stock>, tx: StockTransaction) -> TradeResult {
    TradeResult {
        correlation_id: tx.correlation_id,
        id: tx.id,
        outcome: match outcome_of(s, tx) {
            Ok(st) => TradeOutcome::Accepted(st),
            Err(e) => TradeOutcome::Rejected(e),
        },
    }
}

/// The registry after the actions in order.
pub open spec fn run(s: Seq<Stock>, txs: Seq<StockTransaction>) -> Seq<Stock>
    decreases txs.len(),
{
    if txs.len() == 0 {
        s
    } else {
        step(run(s, txs.drop_last()), txs.last())
    }
}

/// The answers to the actions, in the order in which they are applied.
pub open spec fn results(s: Seq<Stock>, txs: Seq<StockTransaction>) -> Seq<TradeResult>
    decreases txs.len(),
{
    if txs.len() == 0 {
        Seq::empty()
    } else {
        results(s, txs.drop_last()).push(result_for(run(s, txs.drop_last()), txs.last()))
    }
}

/// With unique identifiers, the instrument found at `i` is the one at `position`.
pub proof fn lemma_position_unique(s: Seq<Stock>, id: Seq<char>, i: int)
    requires
        ids_unique(s),
        0 <= i < s.len(),
        s[i].id@ == id,
    ensures
        lists(s, id),
        position(s, id) == i,
{
    assert(lists(s, id));
    let p = position(s, id);
    assert(s[p].id@ == s[i].id@);
}

/// An applied outcome keeps the registry well formed.
proof fn lemma_after_wf(s: Seq<Stock>, id: Seq<char>, o: Result<Stock, RejectReason>)
    requires
        registry_wf(s),
        o is Ok ==> lists(s, id) && o->Ok_0.wf() && o->Ok_0.id == s[position(s, id)].id,
    ensures
        registry_wf(after(s, id, o)),
        after(s, id, o).len() == s.len(),
{
    if o is Ok {
        let p = position(s, id);
        let t = after(s, id, o);
        assert forall|i: int, j: int|
            0 <= i < t.len() && 0 <= j < t.len() && (#[trigger] t[i]).id@ == (#[trigger] t[j]).id@
            implies i == j by {
            assert(t[i].id@ == s[i].id@);
            assert(t[j].id@ == s[j].id@);
        }
    }
}

/// One action keeps every instrument's identity and its count of units, and
/// keeps the registry well formed; a rejected action changes nothing, so no
/// count ever goes below zero or past what a `u32` holds.
pub proof fn lemma_step_keeps_inventory(s: Seq<Stock>, tx: StockTransaction)
    requires
        registry_wf(s),
    ensures
        registry_wf(step(s, tx)),
        step(s, tx).len() == s.len(),
        forall|i: int|
            0 <= i < s.len() ==> (#[trigger] step(s, tx)[i]).total() == s[i].total() && step(
                s,
                tx,
            )[i].id == s[i].id,
        outcome_of(s, tx) is Err ==> step(s, tx) == s,
{
    let o = outcome_of(s, tx);
    if o is Ok {
        let p = position(s, tx.id@);
        assert(0 <= p < s.len() && s[p].id@ == tx.id@);
        assert(s[p].wf());
        lemma_after_wf(s, tx.id@, o);
    }
}

/// Conservation: whatever actions are applied in whatever order, each
/// instrument keeps its identity and its count of available plus held units.
pub proof fn lemma_conservation(s: Seq<Stock>, txs: Seq<StockTransaction>)
    requires
        registry_wf(s),
    ensures
        registry_wf(run(s, txs)),
        run(s, txs).len() == s.len(),
        forall|i: int|
            0 <= i < s.len() ==> (#[trigger] run(s, txs)[i]).total() == s[i].total() && run(
                s,
                txs,
            )[i].id == s[i].id,
    decreases txs.len(),
{
    if txs.len() > 0 {
        lemma_conservation(s, txs.drop_last());
        lemma_step_keeps_inventory(run(s, txs.drop_last()), txs.last());
        let mid = run(s, txs.drop_last());
        assert forall|i: int| 0 <= i < s.len() implies (#[trigger] run(s, txs)[i]).total()
            == s[i].total() && run(s, txs)[i].id == s[i].id by {
            assert(mid[i].total() == s[i].total());
            assert(step(mid, txs.last())[i].total() == mid[i].total());
        }
    }
}

/// Arrival order is answer order: the k-th answer emitted is the answer to the
/// k-th action, computed on the registry that all earlier actions left.
pub proof fn lemma_fifo(s: Seq<Stock>, txs: Seq<StockTransaction>)
    ensures
        results(s, txs).len() == txs.len(),
        forall|k: int|
            0 <= k < txs.len() ==> #[trigger] results(s, txs)[k] == result_for(
                run(s, txs.take(k)),
                txs[k],
            ),
    decreases txs.len(),
{
    if txs.len() > 0 {
        let init = txs.drop_last();
        lemma_fifo(s, init);
        assert forall|k: int| 0 <= k < txs.len() implies #[trigger] results(s, txs)[k]
            == result_for(run(s, txs.take(k)), txs[k]) by {
            if k < init.len() {
                assert(txs.take(k) =~= init.take(k));
                assert(results(s, txs)[k] == results(s, init)[k]);
            } else {
                assert(txs.take(k) =~= init);
            }
        }
    }
}

/// Rejection is idempotent: a buy of more units than are available leaves
/// the registry as it was, so submitting it again is rejected the same way.
pub proof fn lemma_rejected_buy_idempotent(s: Seq<Stock>, tx: StockTransaction)
    requires
        tx.action == TradeKind::Buy,
        lists(s, tx.id@),
        tx.quantity > s[position(s, tx.id@)].available_stock,
    ensures
        step(s, tx) == s,
        step(step(s, tx), tx) == s,
        result_for(s, tx).outcome == TradeOutcome::Rejected(RejectReason::InsufficientAvailable),
        result_for(step(s, tx), tx) == result_for(s, tx),
{
}

/// The registry after each instrument's sell price has moved by its own
/// number of basis points, and its buy price has been marked up again.
pub open spec fn repriced(s: Seq<Stock>, moves: Seq<i32>, markup_percent: u32) -> Seq<Stock> {
    Seq::new(
        s.len(),
        |i: int|
            s[i].with_prices(
                moved_price(s[i].sell_price, moves[i]) as u32,
                buy_price_of(moved_price(s[i].sell_price, moves[i]) as u32, markup_percent),
            ),
    )
}

/// The broadcast view of one instrument.
pub open spec fn update_of(st: Stock, sequence: u64) -> PriceUpdate {
    PriceUpdate {
        id: st.id,
        sell_price: st.sell_price,
        buy_price: st.buy_price,
        available_stock: st.available_stock,
        sequence,
    }
}

/// The authority's state: the registry of instruments.
pub struct StockMarket {
    stocks: Vec<Stock>,
}

/// Why an instrument could not be listed.
#[derive(Clone, Copy, Debug, PartialEq, Eq, Structural)]
pub enum ListingError {
    /// Another instrument already has this identifier.
    DuplicateId,
    /// The sell price is zero.
    ZeroPrice,
    /// Available and held units together exceed what a `u32` counts.
    InventoryTooLarge,
}

impl View for StockMarket {
    type V = Seq<Stock>;

    closed spec fn view(&self) -> Seq<Stock> {
        self.stocks@
    }
}

impl StockMarket {
    /// The registry is well formed.
    pub closed spec fn wf(&self) -> bool {
        registry_wf(self.stocks@)
    }

    /// A well-formed market holds a well-formed registry: unique
    /// identifiers, positive prices, and unit counts whose sum fits a `u32`.
    pub proof fn lemma_wf_registry(&self)
        requires
            self.wf(),
        ensures
            registry_wf(self@),
    {
    }

    /// An empty registry.
    pub fn new() -> (r: StockMarket)
        ensures
            r.wf(),
            r@ == Seq::<Stock>::empty(),
    {
        StockMarket { stocks: Vec::new() }
    }

    /// The position of the instrument with identifier `id`, if listed.
    fn find(&self, id: &String) -> (r: Option<usize>)
        requires
            self.wf(),
        ensures
            r is None <==> !lists(self@, id@),
            r matches Some(i) ==> i < self@.len() && position(self@, id@) == i
                && self@[i as int].id@ == id@,
    {
        let mut i: usize = 0;
        while i < self.stocks.len()
            invariant
                i <= self.stocks@.len(),
                self.wf(),
                forall|j: int| 0 <= j < i ==> (#[trigger] self.stocks@[j]).id@ != id@,
            decreases self.stocks@.len() - i,
        {
            if self.stocks[i].id == *id {
                proof {
                    lemma_position_unique(self.stocks@, id@, i as int);
                }
                return Some(i);
            }
            i += 1;
        }
        None
    }

    /// Adds an instrument to the registry.
    pub fn list_stock(&mut self, stock: Stock) -> (r: Result<(), ListingError>)
        requires
            old(self).wf(),
        ensures
            final(self).wf(),
            r is Ok <==> !lists(old(self)@, stock.id@) && stock.wf(),
            r is Ok ==> final(self)@ == old(self)@.push(stock),
            r is Err ==> final(self)@ == old(self)@,
            r == Err::<(), _>(ListingError::DuplicateId) <==> lists(old(self)@, stock.id@),
            r == Err::<(), _>(ListingError::ZeroPrice) <==> !lists(old(self)@, stock.id@)
                && stock.sell_price == 0,
            r == Err::<(), _>(ListingError::InventoryTooLarge) <==> !lists(old(self)@, stock.id@)
                && stock.sell_price > 0 && stock.total() > u32::MAX as int,
    {
        if self.find(&stock.id).is_some() {
            return Err(ListingError::DuplicateId);
        }
        if stock.sell_price == 0 {
            return Err(ListingError::ZeroPrice);
        }
        if stock.available_stock as u64 + stock.held_stock as u64 > u32::MAX as u64 {
            return Err(ListingError::InventoryTooLarge);
        }
        let ghost s0 = self.stocks@;
        self.stocks.push(stock);
        proof {
            let t = self.stocks@;
            assert forall|i: int, j: int|
                0 <= i < t.len() && 0 <= j < t.len() && (#[trigger] t[i]).id@ == (#[trigger] t[j]).id@
                implies i == j by {
                if i < s0.len() && j == s0.len() {
                    assert(s0[i].id@ == t[j].id@);
                }
                if j < s0.len() && i == s0.len() {
                    assert(s0[j].id@ == t[i].id@);
                }
            }
            assert forall|i: int| 0 <= i < t.len() implies (#[trigger] t[i]).wf() by {
                if i < s0.len() {
                    assert(t[i] == s0[i]);
                }
            }
        }
        Ok(())
    }

    /// The number of listed instruments.
    pub fn len(&self) -> (r: usize)
        ensures
            r == self@.len(),
    {
        self.stocks.len()
    }

    /// A copy of the instrument at position `i`.
    pub fn stock_at(&self, i: usize) -> (r: Stock)
        requires
            i < self@.len(),
        ensures
            r == self@[i as int],
    {
        self.stocks[i].copy()
    }

    /// A copy of the instrument with identifier `id`, if listed.
    pub fn get(&self, id: &String) -> (r: Option<Stock>)
        requires
            self.wf(),
        ensures
            r is None <==> !lists(self@, id@),
            r matches Some(st) ==> st == self@[position(self@, id@)],
    {
        match self.find(id) {
            Some(i) => Some(self.stocks[i].copy()),
            None => None,
        }
    }

    /// Moves `qty` units of `id` from available to held.
    pub fn apply_buy(&mut self, id: &String, qty: u32) -> (r: Result<Stock, RejectReason>)
        requires
            old(self).wf(),
        ensures
            final(self).wf(),
            r == buy_outcome(old(self)@, id@, qty),
            final(self)@ == after(old(self)@, id@, r),
    {
        match self.find(id) {
            None => Err(RejectReason::UnknownInstrument),
            Some(i) => {
                let ghost s0 = self.stocks@;
                if qty <= self.stocks[i].available_stock {
                    self.stocks[i].available_stock = self.stocks[i].available_stock - qty;
                    self.stocks[i].held_stock = self.stocks[i].held_stock + qty;
                    proof {
                        assert(self.stocks@ =~= after(s0, id@, buy_outcome(s0, id@, qty)));
                        lemma_after_wf(s0, id@, buy_outcome(s0, id@, qty));
                    }
                    Ok(self.stocks[i].copy())
                } else {
                    Err(RejectReason::InsufficientAvailable)
                }
            },
        }
    }

    /// Moves `qty` units of `id` from held back to available.
    pub fn apply_sell(&mut self, id: &String, qty: u32) -> (r: Result<Stock, RejectReason>)
        requires
            old(self).wf(),
        ensures
            final(self).wf(),
            r == sell_outcome(old(self)@, id@, qty),
            final(self)@ == after(old(self)@, id@, r),
    {
        match self.find(id) {
            None => Err(RejectReason::UnknownInstrument),
            Some(i) => {
                let ghost s0 = self.stocks@;
                if qty <= self.stocks[i].held_stock {
                    self.stocks[i].held_stock = self.stocks[i].held_stock - qty;
                    self.stocks[i].available_stock = self.stocks[i].available_stock + qty;
                    proof {
                        assert(self.stocks@ =~= after(s0, id@, sell_outcome(s0, id@, qty)));
                        lemma_after_wf(s0, id@, sell_outcome(s0, id@, qty));
                    }
                    Ok(self.stocks[i].copy())
                } else {
                    Err(RejectReason::InsufficientHeld)
                }
            },
        }
    }

    /// Sets the sell price of `id`, and its buy price from the markup.
    pub fn apply_price_move(&mut self, id: &String, new_sell_price: u32, markup_percent: u32) -> (r:
        Result<Stock, RejectReason>)
        requires
            old(self).wf(),
            new_sell_price > 0,
            markup_percent >= MIN_MARKUP_PERCENT,
        ensures
            final(self).wf(),
            r is Err <==> !lists(old(self)@, id@),
            r is Err ==> r == Err::<Stock, _>(RejectReason::UnknownInstrument),
            r matches Ok(st) ==> st == old(self)@[position(old(self)@, id@)].with_prices(
                new_sell_price,
                buy_price_of(new_sell_price, markup_percent),
            ),
            final(self)@ == after(old(self)@, id@, r),
    {
        match self.find(id) {
            None => Err(RejectReason::UnknownInstrument),
            Some(i) => {
                let ghost s0 = self.stocks@;
                let buy = buy_price_for(new_sell_price, markup_percent);
                self.stocks[i].sell_price = new_sell_price;
                self.stocks[i].buy_price = buy;
                let r = Ok(self.stocks[i].copy());
                proof {
                    assert(self.stocks@ =~= after(s0, id@, r));
                    lemma_after_wf(s0, id@, r);
                }
                r
            },
        }
    }

    /// Applies one action and answers it.
    pub fn process_transaction(&mut self, transaction: &StockTransaction) -> (r: TradeResult)
        requires
            old(self).wf(),
        ensures
            final(self).wf(),
            final(self)@ == step(old(self)@, *transaction),
            r == result_for(old(self)@, *transaction),
            final(self)@.len() == old(self)@.len(),
            forall|i: int|
                0 <= i < old(self)@.len() ==> (#[trigger] final(self)@[i]).total() == old(
                    self,
                )@[i].total() && final(self)@[i].id == old(self)@[i].id,
    {
        proof {
            lemma_step_keeps_inventory(self@, *transaction);
        }
        let applied = match transaction.action {
            TradeKind::Buy => self.apply_buy(&transaction.id, transaction.quantity),
            TradeKind::Sell => self.apply_sell(&transaction.id, transaction.quantity),
        };
        let outcome = match applied {
            Ok(st) => TradeOutcome::Accepted(st),
            Err(e) => TradeOutcome::Rejected(e),
        };
        TradeResult {
            correlation_id: transaction.correlation_id,
            id: transaction.id.clone(),
            outcome,
        }
    }

    /// Drains a queue of actions strictly in arrival order, one answer each.
    pub fn process_transactions(&mut self, queue: &Vec<StockTransaction>) -> (r: Vec<TradeResult>)
        requires
            old(self).wf(),
        ensures
            final(self).wf(),
            final(self)@ == run(old(self)@, queue@),
            r@ == results(old(self)@, queue@),
            final(self)@.len() == old(self)@.len(),
            forall|i: int|
                0 <= i < old(self)@.len() ==> (#[trigger] final(self)@[i]).total() == old(
                    self,
                )@[i].total() && final(self)@[i].id == old(self)@[i].id,
    {
        proof {
            lemma_conservation(self@, queue@);
        }
        let ghost s0 = self@;
        let mut out: Vec<TradeResult> = Vec::new();
        let mut i: usize = 0;
        while i < queue.len()
            invariant
                i <= queue@.len(),
                self.wf(),
                self@ == run(s0, queue@.take(i as int)),
                out@ == results(s0, queue@.take(i as int)),
            decreases queue@.len() - i,
        {
            let ghost before = queue@.take(i as int);
            let res = self.process_transaction(&queue[i]);
            out.push(res);
            i += 1;
            proof {
                let now = queue@.take(i as int);
                assert(now.drop_last() =~= before);
            }
        }
        proof {
            assert(queue@.take(i as int) =~= queue@);
        }
        out
    }

    /// Moves every instrument's price, the i-th by `moves[i]` basis points,
    /// and sets each buy price from the markup.
    pub fn simulate_price_changes(&mut self, moves: &Vec<i32>, markup_percent: u32)
        requires
            old(self).wf(),
            moves@.len() == old(self)@.len(),
            markup_percent >= MIN_MARKUP_PERCENT,
        ensures
            final(self).wf(),
            final(self)@ == repriced(old(self)@, moves@, markup_percent),
    {
        let ghost s0 = self.stocks@;
        let mut i: usize = 0;
        while i < self.stocks.len()
            invariant
                i <= self.stocks@.len(),
                self.stocks@.len() == s0.len(),
                moves@.len() == s0.len(),
                forall|j: int| 0 <= j < i ==> #[trigger] self.stocks@[j] == repriced(
                    s0,
                    moves@,
                    markup_percent,
                )[j],
                forall|j: int| i <= j < s0.len() ==> #[trigger] self.stocks@[j] == s0[j],
            decreases s0.len() - i,
        {
            let sell = move_price(self.stocks[i].sell_price, moves[i]);
            let buy = buy_price_for(sell, markup_percent);
            self.stocks[i].sell_price = sell;
            self.stocks[i].buy_price = buy;
            i += 1;
        }
        proof {
            let t = self.stocks@;
            assert(t =~= repriced(s0, moves@, markup_percent));
            assert forall|a: int, b: int|
                0 <= a < t.len() && 0 <= b < t.len() && (#[trigger] t[a]).id@ == (#[trigger] t[b]).id@
                implies a == b by {
                assert(t[a].id == s0[a].id);
                assert(t[b].id == s0[b].id);
            }
            assert forall|a: int| 0 <= a < t.len() implies (#[trigger] t[a]).wf() by {
                assert(s0[a].wf());
            }
        }
    }

    /// The broadcast view of every instrument, each stamped with `sequence`.
    pub fn snapshots(&self, sequence: u64) -> (r: Vec<PriceUpdate>)
        ensures
            r@.len() == self@.len(),
            forall|i: int| 0 <= i < self@.len() ==> #[trigger] r@[i] == update_of(self@[i], sequence),
    {
        let mut out: Vec<PriceUpdate> = Vec::new();
        let mut i: usize = 0;
        while i < self.stocks.len()
            invariant
                i <= self.stocks@.len(),
                out@.len() == i,
                forall|j: int| 0 <= j < i ==> #[trigger] out@[j] == update_of(self.stocks@[j], sequence),
            decreases self.stocks@.len() - i,
        {
            let st = &self.stocks[i];
            out.push(PriceUpdate {
                id: st.id.clone(),
                sell_price: st.sell_price,
                buy_price: st.buy_price,
                available_stock: st.available_stock,
                sequence,
            });
            i += 1;
        }
        out
    }
}

} // verus!