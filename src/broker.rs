//! A broker agent: it turns the price updates of the instruments that it
//! follows into buy and sell actions, and keeps its own running count of the
//! units that it holds, corrected when the authority answers.

use crate::message::{PriceUpdate, StockTransaction, TradeKind, TradeOutcome, TradeResult};
use vstd::prelude::*;

verus! {

/// What a broker trades on; fixed for the broker's lifetime. Prices in cents.
pub struct TradePreferences {
    pub stock_id: String,
    pub max_price: u32,
    pub min_price: u32,
    /// Units per buy order.
    pub order_amount: u32,
    /// At or above this price, held units are sold for gain.
    pub target_profit: u32,
    /// At or below this price, held units are sold to cap the loss.
    pub stop_loss_limit: u32,
    /// The instruments whose updates the broker acts on.
    pub interested_stocks: Vec<String>,
}

/// Which exit rule an update triggers.
#[derive(Clone, Copy, Debug, PartialEq, Eq, Structural)]
pub enum ExitRule {
    Hold,
    ProfitTake,
    StopLoss,
}

/// What the rules say of one price.
#[derive(Clone, Copy, Debug, PartialEq, Eq, Structural)]
pub struct Decision {
    /// The entry rule holds.
    pub buy: bool,
    pub exit: ExitRule,
}

/// Why a set of preferences was refused.
#[derive(Clone, Copy, Debug, PartialEq, Eq, Structural)]
pub enum PreferenceError {
    /// The profit target does not lie above the stop-loss limit.
    ExitThresholdsOutOfOrder,
}

/// The entry rule: the price lies in the acceptable band.
pub open spec fn entry_applies(p: TradePreferences, price: u32) -> bool {
    p.min_price <= price && price <= p.max_price
}

/// The exit rules, profit-take first.
pub open spec fn exit_rule(p: TradePreferences, price: u32) -> ExitRule {
    if price >= p.target_profit {
        ExitRule::ProfitTake
    } else if price <= p.stop_loss_limit {
        ExitRule::StopLoss
    } else {
        ExitRule::Hold
    }
}

/// Evaluates the entry rule and the exit rules on one price.
pub fn decide(p: &TradePreferences, price: u32) -> (r: Decision)
    ensures
        r.buy == entry_applies(*p, price),
        r.exit == exit_rule(*p, price),
{
    let buy = p.min_price <= price && price <= p.max_price;
    let exit = if price >= p.target_profit {
        ExitRule::ProfitTake
    } else if price <= p.stop_loss_limit {
        ExitRule::StopLoss
    } else {
        ExitRule::Hold
    };
    Decision { buy, exit }
}

/// Profit-take wins: a price that meets both the profit target and the
/// stop-loss limit triggers the profit-take rule, whatever the thresholds.
pub proof fn lemma_profit_take_first(p: TradePreferences, price: u32)
    requires
        price >= p.target_profit,
        price <= p.stop_loss_limit,
    ensures
        exit_rule(p, price) == ExitRule::ProfitTake,
{
}

/// `ids` holds `id` at `k`, and nowhere before.
pub open spec fn first_at(ids: Seq<String>, id: Seq<char>, k: int) -> bool {
    &&& 0 <= k < ids.len()
    &&& ids[k]@ == id
    &&& forall|j: int| 0 <= j < k ==> (#[trigger] ids[j])@ != id
}

/// `ids` holds `id`.
pub open spec fn names(ids: Seq<String>, id: Seq<char>) -> bool {
    exists|k: int| 0 <= k < ids.len() && (#[trigger] ids[k])@ == id
}

/// Where `id` first stands in `ids`.
pub open spec fn slot(ids: Seq<String>, id: Seq<char>) -> int {
    choose|k: int| first_at(ids, id, k)
}

proof fn lemma_first_at_unique(ids: Seq<String>, id: Seq<char>, k: int)
    requires
        first_at(ids, id, k),
    ensures
        names(ids, id),
        slot(ids, id) == k,
{
    assert(names(ids, id));
    let c = slot(ids, id);
    assert(first_at(ids, id, c));
    if c < k {
        assert(ids[c]@ != id);
    }
    if k < c {
        assert(ids[k]@ != id);
    }
}

/// The first position of `id` in `ids`.
fn find_slot(ids: &Vec<String>, id: &String) -> (r: Option<usize>)
    ensures
        r is None <==> !names(ids@, id@),
        r matches Some(k) ==> first_at(ids@, id@, k as int) && slot(ids@, id@) == k,
{
    let mut k: usize = 0;
    while k < ids.len()
        invariant
            k <= ids@.len(),
            forall|j: int| 0 <= j < k ==> (#[trigger] ids@[j])@ != id@,
        decreases ids@.len() - k,
    {
        if ids[k] == *id {
            proof {
                lemma_first_at_unique(ids@, id@, k as int);
            }
            return Some(k);
        }
        k += 1;
    }
    None
}

/// The first pending action with correlation `c`.
fn find_pending(pending: &Vec<StockTransaction>, c: u64) -> (r: Option<usize>)
    ensures
        r is None <==> !(exists|k: int| first_pending(pending@, c, k)),
        r matches Some(k) ==> first_pending(pending@, c, k as int),
{
    let mut k: usize = 0;
    while k < pending.len()
        invariant
            k <= pending@.len(),
            forall|j: int| 0 <= j < k ==> (#[trigger] pending@[j]).correlation_id != c,
        decreases pending@.len() - k,
    {
        if pending[k].correlation_id == c {
            assert(first_pending(pending@, c, k as int));
            return Some(k);
        }
        k += 1;
    }
    proof {
        assert forall|j: int| !first_pending(pending@, c, j) by {
            if first_pending(pending@, c, j) {
                assert(pending@[j].correlation_id != c);
            }
        }
    }
    None
}

/// The correlation identifier after `c`.
pub open spec fn succ(c: u64) -> u64 {
    if c == u64::MAX {
        0
    } else {
        (c + 1) as u64
    }
}

fn next_correlation(c: u64) -> (r: u64)
    ensures
        r == succ(c),
{
    if c == u64::MAX {
        0
    } else {
        c + 1
    }
}

/// The model of a broker.
pub struct BrokerState {
    pub id: String,
    pub preferences: TradePreferences,
    /// The running count of units held, one per followed instrument.
    pub held: Seq<u32>,
    /// The actions sent and not yet answered, oldest first.
    pub pending: Seq<StockTransaction>,
    /// The correlation identifier of the next action.
    pub next_correlation: u64,
}

/// The broker follows the instrument of the update.
pub open spec fn follows(v: BrokerState, u: PriceUpdate) -> bool {
    names(v.preferences.interested_stocks@, u.id@)
}

/// The running count for the instrument of the update.
pub open spec fn held_at(v: BrokerState, u: PriceUpdate) -> int {
    v.held[slot(v.preferences.interested_stocks@, u.id@)] as int
}

/// The update makes the broker buy: it follows the instrument, the entry rule
/// holds, and the running count stays within a `u32`.
pub open spec fn enters(v: BrokerState, u: PriceUpdate) -> bool {
    &&& follows(v, u)
    &&& entry_applies(v.preferences, u.sell_price)
    &&& held_at(v, u) + v.preferences.order_amount <= u32::MAX as int
}

/// The running count once the entry rule has been applied.
pub open spec fn held_after_entry(v: BrokerState, u: PriceUpdate) -> int {
    held_at(v, u) + if enters(v, u) {
        v.preferences.order_amount as int
    } else {
        0
    }
}

/// The update makes the broker sell everything it holds of the instrument,
/// possibly nothing.
pub open spec fn exits(v: BrokerState, u: PriceUpdate) -> bool {
    &&& follows(v, u)
    &&& exit_rule(v.preferences, u.sell_price) != ExitRule::Hold
}

/// An action of the broker.
pub open spec fn order(v: BrokerState, kind: TradeKind, id: String, q: int, c: u64) -> StockTransaction {
    StockTransaction { action: kind, id, quantity: q as u32, broker_id: v.id, correlation_id: c }
}

/// The actions that an update makes the broker send, entry first.
pub open spec fn emitted(v: BrokerState, u: PriceUpdate) -> Seq<StockTransaction> {
    let c = if enters(v, u) {
        succ(v.next_correlation)
    } else {
        v.next_correlation
    };
    let buys = if enters(v, u) {
        seq![order(v, TradeKind::Buy, u.id, v.preferences.order_amount as int, v.next_correlation)]
    } else {
        Seq::empty()
    };
    let sells = if exits(v, u) {
        seq![order(v, TradeKind::Sell, u.id, held_after_entry(v, u), c)]
    } else {
        Seq::empty()
    };
    buys + sells
}

/// The broker after an update: counts moved optimistically, actions pending.
pub open spec fn reacted(v: BrokerState, u: PriceUpdate) -> BrokerState {
    if !follows(v, u) {
        v
    } else {
        let c = if enters(v, u) {
            succ(v.next_correlation)
        } else {
            v.next_correlation
        };
        BrokerState {
            held: v.held.update(
                slot(v.preferences.interested_stocks@, u.id@),
                if exits(v, u) {
                    0
                } else {
                    held_after_entry(v, u) as u32
                },
            ),
            pending: v.pending + emitted(v, u),
            next_correlation: if exits(v, u) {
                succ(c)
            } else {
                c
            },
            ..v
        }
    }
}

/// `pending` holds an action with correlation `c` at `k`, and none before.
pub open spec fn first_pending(pending: Seq<StockTransaction>, c: u64, k: int) -> bool {
    &&& 0 <= k < pending.len()
    &&& pending[k].correlation_id == c
    &&& forall|j: int| 0 <= j < k ==> (#[trigger] pending[j]).correlation_id != c
}

/// The count after undoing an action that the authority refused.
pub open spec fn rolled_back(h: u32, tx: StockTransaction) -> u32 {
    match tx.action {
        TradeKind::Buy => if h >= tx.quantity {
            (h - tx.quantity) as u32
        } else {
            0
        },
        TradeKind::Sell => if h as int + tx.quantity as int > u32::MAX as int {
            u32::MAX
        } else {
            (h + tx.quantity) as u32
        },
    }
}

/// The broker after an answer: the answered action leaves the pending list,
/// and a refused one has its optimistic count undone.
pub open spec fn reconciled(v: BrokerState, r: TradeResult) -> BrokerState {
    if !(exists|k: int| first_pending(v.pending, r.correlation_id, k)) {
        v
    } else {
        let k = choose|k: int| first_pending(v.pending, r.correlation_id, k);
        let tx = v.pending[k];
        let ids = v.preferences.interested_stocks@;
        if r.outcome is Accepted || !names(ids, tx.id@) {
            BrokerState { pending: v.pending.remove(k), ..v }
        } else {
            let s = slot(ids, tx.id@);
            BrokerState {
                pending: v.pending.remove(k),
                held: v.held.update(s, rolled_back(v.held[s], tx)),
                ..v
            }
        }
    }
}

/// A broker agent.
pub struct Broker {
    id: String,
    preferences: TradePreferences,
    held: Vec<u32>,
    pending: Vec<StockTransaction>,
    next_correlation: u64,
}

impl View for Broker {
    type V = BrokerState;

    closed spec fn view(&self) -> BrokerState {
        BrokerState {
            id: self.id,
            preferences: self.preferences,
            held: self.held@,
            pending: self.pending@,
            next_correlation: self.next_correlation,
        }
    }
}

impl Broker {
    /// One running count per followed instrument.
    pub closed spec fn wf(&self) -> bool {
        self.held@.len() == self.preferences.interested_stocks@.len()
    }

    /// A broker with nothing held or pending; refuses a profit target that
    /// does not lie above the stop-loss limit.
    pub fn new(id: &str, preferences: TradePreferences) -> (r: Result<Broker, PreferenceError>)
        ensures
            r is Ok <==> preferences.target_profit > preferences.stop_loss_limit,
            r matches Ok(b) ==> {
                &&& b.wf()
                &&& b@.id@ == id@
                &&& b@.preferences == preferences
                &&& b@.held == Seq::new(preferences.interested_stocks@.len(), |i: int| 0u32)
                &&& b@.pending == Seq::<StockTransaction>::empty()
                &&& b@.next_correlation == 0
            },
    {
        if preferences.target_profit <= preferences.stop_loss_limit {
            return Err(PreferenceError::ExitThresholdsOutOfOrder);
        }
        let mut held: Vec<u32> = Vec::new();
        let n = preferences.interested_stocks.len();
        let mut i: usize = 0;
        while i < n
            invariant
                i <= n,
                n == preferences.interested_stocks@.len(),
                held@ == Seq::new(i as nat, |j: int| 0u32),
            decreases n - i,
        {
            held.push(0);
            i += 1;
            proof {
                assert(held@ =~= Seq::new(i as nat, |j: int| 0u32));
            }
        }
        Ok(Broker { id: id.to_string(), preferences, held, pending: Vec::new(), next_correlation: 0 })
    }

    /// The broker's identifier.
    pub fn id(&self) -> (r: &String)
        ensures
            *r == self@.id,
    {
        &self.id
    }

    /// The broker's preferences.
    pub fn preferences(&self) -> (r: &TradePreferences)
        ensures
            *r == self@.preferences,
    {
        &self.preferences
    }

    /// The running count of units held of `id`: zero for an instrument that
    /// the broker does not follow.
    pub fn held_quantity(&self, id: &String) -> (r: u32)
        requires
            self.wf(),
        ensures
            r == if names(self@.preferences.interested_stocks@, id@) {
                self@.held[slot(self@.preferences.interested_stocks@, id@)]
            } else {
                0
            },
    {
        match find_slot(&self.preferences.interested_stocks, id) {
            Some(k) => self.held[k],
            None => 0,
        }
    }

    /// The actions sent and not yet answered, oldest first.
    pub fn pending_count(&self) -> (r: usize)
        ensures
            r == self@.pending.len(),
    {
        self.pending.len()
    }

    /// Applies the rules to one update, in order: entry, then profit-take or
    /// stop-loss. Returns the actions to send; each gets a fresh correlation
    /// identifier and stays pending until answered. An update for an
    /// instrument that the broker does not follow changes nothing.
    pub fn process_stock_update(&mut self, update: &PriceUpdate) -> (r: Vec<StockTransaction>)
        requires
            old(self).wf(),
        ensures
            final(self).wf(),
            r@ == emitted(old(self)@, *update),
            final(self)@ == reacted(old(self)@, *update),
    {
        let ghost v0 = self@;
        let k = match find_slot(&self.preferences.interested_stocks, &update.id) {
            Some(k) => k,
            None => {
                return Vec::new();
            },
        };
        let d = decide(&self.preferences, update.sell_price);
        let mut out: Vec<StockTransaction> = Vec::new();
        let mut h: u32 = self.held[k];
        let order_amount = self.preferences.order_amount;
        if d.buy && h as u64 + order_amount as u64 <= u32::MAX as u64 {
            let tx = StockTransaction {
                action: TradeKind::Buy,
                id: update.id.clone(),
                quantity: order_amount,
                broker_id: self.id.clone(),
                correlation_id: self.next_correlation,
            };
            self.next_correlation = next_correlation(self.next_correlation);
            h = h + order_amount;
            out.push(tx);
        }
        if d.exit != ExitRule::Hold {
            let tx = StockTransaction {
                action: TradeKind::Sell,
                id: update.id.clone(),
                quantity: h,
                broker_id: self.id.clone(),
                correlation_id: self.next_correlation,
            };
            self.next_correlation = next_correlation(self.next_correlation);
            h = 0;
            out.push(tx);
        }
        self.held.set(k, h);
        let ghost held_now = self.held@;
        let ghost next_now = self.next_correlation;
        let mut i: usize = 0;
        while i < out.len()
            invariant
                i <= out@.len(),
                self.held@ == held_now,
                self.next_correlation == next_now,
                self.id == v0.id,
                self.preferences == v0.preferences,
                self.pending@ == v0.pending + out@.take(i as int),
            decreases out@.len() - i,
        {
            self.pending.push(out[i].copy());
            i += 1;
            proof {
                assert(self.pending@ =~= v0.pending + out@.take(i as int));
            }
        }
        proof {
            assert(out@.take(i as int) =~= out@);
            assert(out@ =~= emitted(v0, *update));
            assert(self@.pending =~= reacted(v0, *update).pending);
            assert(self@.held =~= reacted(v0, *update).held);
        }
        out
    }

    /// Takes in the authority's answer to one of the broker's actions: the
    /// action leaves the pending list, and if it was refused its optimistic
    /// count is undone. An answer to no pending action changes nothing.
    pub fn on_result(&mut self, result: &TradeResult)
        requires
            old(self).wf(),
        ensures
            final(self).wf(),
            final(self)@ == reconciled(old(self)@, *result),
    {
        let ghost v0 = self@;
        let k = match find_pending(&self.pending, result.correlation_id) {
            Some(k) => k,
            None => {
                return;
            },
        };
        proof {
            let c = choose|c: int| first_pending(v0.pending, result.correlation_id, c);
            assert(first_pending(v0.pending, result.correlation_id, k as int));
            if c < k {
                assert(v0.pending[c].correlation_id != result.correlation_id);
            }
            if k < c {
                assert(v0.pending[k as int].correlation_id != result.correlation_id);
            }
        }
        let tx = self.pending.remove(k);
        let rejected = match result.outcome {
            TradeOutcome::Accepted(_) => false,
            TradeOutcome::Rejected(_) => true,
        };
        if rejected {
            match find_slot(&self.preferences.interested_stocks, &tx.id) {
                Some(s) => {
                    let h = self.held[s];
                    let h2 = match tx.action {
                        TradeKind::Buy => if h >= tx.quantity {
                            h - tx.quantity
                        } else {
                            0
                        },
                        TradeKind::Sell => if h as u64 + tx.quantity as u64 > u32::MAX as u64 {
                            u32::MAX
                        } else {
                            h + tx.quantity
                        },
                    };
                    self.held.set(s, h2);
                },
                None => {},
            }
        }
        proof {
            assert(self@ =~= reconciled(v0, *result));
        }
    }
}

/// What the brokers send on one update, broker by broker, each in its rule
/// order.
pub open spec fn all_emitted(bs: Seq<Broker>, u: PriceUpdate) -> Seq<StockTransaction>
    decreases bs.len(),
{
    if bs.len() == 0 {
        Seq::empty()
    } else {
        all_emitted(bs.drop_last(), u) + emitted(bs.last()@, u)
    }
}

/// Hands one update to every broker in turn and collects what they send.
pub fn fan_out(brokers: &mut Vec<Broker>, update: &PriceUpdate) -> (r: Vec<StockTransaction>)
    requires
        forall|i: int| 0 <= i < old(brokers)@.len() ==> (#[trigger] old(brokers)@[i]).wf(),
    ensures
        final(brokers)@.len() == old(brokers)@.len(),
        forall|i: int|
            0 <= i < final(brokers)@.len() ==> (#[trigger] final(brokers)@[i]).wf()
                && final(brokers)@[i]@ == reacted(old(brokers)@[i]@, *update),
        r@ == all_emitted(old(brokers)@, *update),
{
    let ghost b0 = brokers@;
    let mut out: Vec<StockTransaction> = Vec::new();
    let mut i: usize = 0;
    while i < brokers.len()
        invariant
            i <= brokers@.len(),
            brokers@.len() == b0.len(),
            forall|j: int| 0 <= j < b0.len() ==> (#[trigger] brokers@[j]).wf(),
            forall|j: int| 0 <= j < i ==> (#[trigger] brokers@[j])@ == reacted(b0[j]@, *update),
            forall|j: int| i <= j < b0.len() ==> #[trigger] brokers@[j] == b0[j],
            out@ == all_emitted(b0.take(i as int), *update),
        decreases b0.len() - i,
    {
        let sent = brokers[i].process_stock_update(update);
        let mut k: usize = 0;
        let ghost out0 = out@;
        while k < sent.len()
            invariant
                k <= sent@.len(),
                out@ == out0 + sent@.take(k as int),
            decreases sent@.len() - k,
        {
            out.push(sent[k].copy());
            k += 1;
            proof {
                assert(out@ =~= out0 + sent@.take(k as int));
            }
        }
        proof {
            assert(sent@.take(k as int) =~= sent@);
            assert(b0.take(i + 1).drop_last() =~= b0.take(i as int));
        }
        i += 1;
    }
    proof {
        assert(b0.take(i as int) =~= b0);
    }
    out
}

} // verus!
