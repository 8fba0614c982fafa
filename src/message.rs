//! The records exchanged between the price driver, the brokers and the
//! market authority.

use crate::market::Stock;
use vstd::prelude::*;

verus! {

/// Which way a trade goes.
#[derive(Clone, Copy, Debug, PartialEq, Eq, Structural)]
pub enum TradeKind {
    Buy,
    Sell,
}

impl TradeKind {
    /// Reads the wire name of an action: `"buy"` or `"sell"`.
    pub fn parse(s: &String) -> (r: Option<TradeKind>)
        ensures
            r == Some(TradeKind::Buy) <==> s@ == "buy"@,
            r == Some(TradeKind::Sell) <==> s@ == "sell"@,
            r is None <==> (s@ != "buy"@ && s@ != "sell"@),
    {
        proof {
            reveal_strlit("buy");
            reveal_strlit("sell");
            assert("buy"@[0] != "sell"@[0]);
        }
        let buy = "buy".to_string();
        let sell = "sell".to_string();
        if *s == buy {
            Some(TradeKind::Buy)
        } else if *s == sell {
            Some(TradeKind::Sell)
        } else {
            None
        }
    }
}

/// Why the authority refused an action.
#[derive(Clone, Copy, Debug, PartialEq, Eq, Structural)]
pub enum RejectReason {
    /// A buy asked for more units than are available.
    InsufficientAvailable,
    /// A sell offered more units than are held.
    InsufficientHeld,
    /// The action names no listed instrument.
    UnknownInstrument,
}

/// A buy or sell request sent by a broker to the market authority.
#[derive(Clone, Debug)]
pub struct StockTransaction {
    pub action: TradeKind,
    /// The instrument traded.
    pub id: String,
    pub quantity: u32,
    /// The broker that sent the action.
    pub broker_id: String,
    /// Fresh per action; the result carries it back.
    pub correlation_id: u64,
}

impl StockTransaction {
    /// A field-by-field copy.
    pub fn copy(&self) -> (r: StockTransaction)
        ensures
            r == *self,
    {
        StockTransaction {
            action: self.action,
            id: self.id.clone(),
            quantity: self.quantity,
            broker_id: self.broker_id.clone(),
            correlation_id: self.correlation_id,
        }
    }
}

/// What became of one action.
#[derive(Clone, Debug)]
pub enum TradeOutcome {
    /// Applied; holds the instrument as it stands afterwards.
    Accepted(Stock),
    Rejected(RejectReason),
}

/// The authority's unique answer to one action.
#[derive(Clone, Debug)]
pub struct TradeResult {
    pub correlation_id: u64,
    /// The instrument that the action named.
    pub id: String,
    pub outcome: TradeOutcome,
}

/// A point-in-time copy of one instrument's quote, broadcast to brokers.
#[derive(Clone, Debug)]
pub struct PriceUpdate {
    pub id: String,
    /// In cents.
    pub sell_price: u32,
    /// In cents.
    pub buy_price: u64,
    pub available_stock: u32,
    /// Increases with every update that a driver emits.
    pub sequence: u64,
}

} // verus!
