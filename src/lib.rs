//! A single-owner trading market: an instrument registry mutated only by the
//! market authority, broker agents that turn price updates into trade
//! actions, and a seedable price driver.

pub mod message;
pub mod market;
pub mod pricing;
pub mod broker;
pub mod driver;
pub mod table;
