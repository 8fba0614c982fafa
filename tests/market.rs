use stock_market::market::{ListingError, Stock, StockMarket};
use stock_market::message::{RejectReason, StockTransaction, TradeKind, TradeOutcome, TradeResult};

fn stock(id: &str, available: u32, held: u32) -> Stock {
    Stock {
        id: id.to_string(),
        name: format!("{} Inc", id),
        sell_price: 3000,
        buy_price: 3600,
        available_stock: available,
        held_stock: held,
    }
}

fn action(kind: TradeKind, id: &str, quantity: u32, correlation_id: u64) -> StockTransaction {
    StockTransaction {
        action: kind,
        id: id.to_string(),
        quantity,
        broker_id: "B1".to_string(),
        correlation_id,
    }
}

fn market_with(stocks: Vec<Stock>) -> StockMarket {
    let mut m = StockMarket::new();
    for s in stocks {
        m.list_stock(s).unwrap();
    }
    m
}

fn counts(r: &TradeResult) -> Option<(u32, u32)> {
    match &r.outcome {
        TradeOutcome::Accepted(st) => Some((st.available_stock, st.held_stock)),
        TradeOutcome::Rejected(_) => None,
    }
}

fn reason(r: &TradeResult) -> Option<RejectReason> {
    match &r.outcome {
        TradeOutcome::Accepted(_) => None,
        TradeOutcome::Rejected(e) => Some(*e),
    }
}

#[test]
fn buy_moves_units_from_available_to_held() {
    let mut m = market_with(vec![stock("AAPL", 100, 0)]);
    let r = m.process_transaction(&action(TradeKind::Buy, "AAPL", 10, 7));
    assert_eq!(r.correlation_id, 7);
    assert_eq!(r.id, "AAPL");
    assert_eq!(counts(&r), Some((90, 10)));
    let st = m.get(&"AAPL".to_string()).unwrap();
    assert_eq!((st.available_stock, st.held_stock), (90, 10));
}

#[test]
fn sell_moves_units_back() {
    let mut m = market_with(vec![stock("AAPL", 90, 10)]);
    let r = m.process_transaction(&action(TradeKind::Sell, "AAPL", 4, 1));
    assert_eq!(counts(&r), Some((94, 6)));
}

#[test]
fn buy_of_exactly_the_available_units_is_accepted() {
    let mut m = market_with(vec![stock("AAPL", 100, 0)]);
    let r = m.process_transaction(&action(TradeKind::Buy, "AAPL", 100, 1));
    assert_eq!(counts(&r), Some((0, 100)));
}

#[test]
fn buy_beyond_available_is_rejected() {
    let mut m = market_with(vec![stock("AAPL", 100, 0)]);
    let r = m.process_transaction(&action(TradeKind::Buy, "AAPL", 101, 1));
    assert_eq!(reason(&r), Some(RejectReason::InsufficientAvailable));
}

#[test]
fn sell_beyond_held_is_rejected_and_changes_nothing() {
    let mut m = market_with(vec![stock("AAPL", 90, 10)]);
    let r = m.process_transaction(&action(TradeKind::Sell, "AAPL", 11, 1));
    assert_eq!(reason(&r), Some(RejectReason::InsufficientHeld));
    let st = m.get(&"AAPL".to_string()).unwrap();
    assert_eq!((st.available_stock, st.held_stock), (90, 10));
}

#[test]
fn unknown_instrument_is_rejected() {
    let mut m = market_with(vec![stock("AAPL", 100, 0)]);
    let r = m.process_transaction(&action(TradeKind::Buy, "MSFT", 1, 3));
    assert_eq!(reason(&r), Some(RejectReason::UnknownInstrument));
    assert_eq!(r.id, "MSFT");
    assert_eq!(r.correlation_id, 3);
}

#[test]
fn rejected_buy_twice_gives_identical_results_and_state() {
    let mut m = market_with(vec![stock("AAPL", 100, 0)]);
    let a = action(TradeKind::Buy, "AAPL", 150, 9);
    let r1 = m.process_transaction(&a);
    let r2 = m.process_transaction(&a);
    assert_eq!(reason(&r1), Some(RejectReason::InsufficientAvailable));
    assert_eq!(reason(&r2), Some(RejectReason::InsufficientAvailable));
    assert_eq!(r1.correlation_id, r2.correlation_id);
    let st = m.get(&"AAPL".to_string()).unwrap();
    assert_eq!((st.available_stock, st.held_stock), (100, 0));
}

#[test]
fn buys_and_sells_conserve_units() {
    let mut m = market_with(vec![stock("AAPL", 100, 0), stock("GOOGL", 5, 5)]);
    let ops = vec![
        action(TradeKind::Buy, "AAPL", 30, 1),
        action(TradeKind::Sell, "AAPL", 10, 2),
        action(TradeKind::Buy, "AAPL", 500, 3),
        action(TradeKind::Sell, "GOOGL", 5, 4),
        action(TradeKind::Buy, "GOOGL", 10, 5),
        action(TradeKind::Sell, "AAPL", 21, 6),
    ];
    m.process_transactions(&ops);
    for i in 0..m.len() {
        let st = m.stock_at(i);
        assert_eq!(st.available_stock + st.held_stock, if i == 0 { 100 } else { 10 });
    }
    let a = m.get(&"AAPL".to_string()).unwrap();
    assert_eq!((a.available_stock, a.held_stock), (80, 20));
    let g = m.get(&"GOOGL".to_string()).unwrap();
    assert_eq!((g.available_stock, g.held_stock), (0, 10));
}

#[test]
fn answers_come_in_arrival_order() {
    let mut m = market_with(vec![stock("X", 10, 0), stock("Y", 10, 0)]);
    let queue = vec![
        action(TradeKind::Buy, "X", 10, 100),
        action(TradeKind::Buy, "Y", 3, 200),
        action(TradeKind::Buy, "X", 1, 300),
    ];
    let rs = m.process_transactions(&queue);
    assert_eq!(rs.len(), 3);
    assert_eq!(rs[0].correlation_id, 100);
    assert_eq!(rs[1].correlation_id, 200);
    assert_eq!(rs[2].correlation_id, 300);
    assert_eq!(counts(&rs[0]), Some((0, 10)));
    assert_eq!(counts(&rs[1]), Some((7, 3)));
    assert_eq!(reason(&rs[2]), Some(RejectReason::InsufficientAvailable));
}

#[test]
fn empty_queue_gives_no_answers() {
    let mut m = market_with(vec![stock("X", 10, 0)]);
    let rs = m.process_transactions(&vec![]);
    assert!(rs.is_empty());
    assert_eq!(m.stock_at(0).available_stock, 10);
}

#[test]
fn listing_refuses_duplicates_zero_prices_and_oversized_inventory() {
    let mut m = market_with(vec![stock("AAPL", 1, 0)]);
    assert_eq!(m.list_stock(stock("AAPL", 2, 0)), Err(ListingError::DuplicateId));
    let mut free = stock("FREE", 1, 0);
    free.sell_price = 0;
    assert_eq!(m.list_stock(free), Err(ListingError::ZeroPrice));
    assert_eq!(
        m.list_stock(stock("BIG", u32::MAX, 1)),
        Err(ListingError::InventoryTooLarge)
    );
    assert_eq!(m.list_stock(stock("MAX", u32::MAX - 1, 1)), Ok(()));
    assert_eq!(m.len(), 2);
}

#[test]
fn get_of_unknown_instrument_is_none() {
    let m = market_with(vec![stock("AAPL", 1, 0)]);
    assert!(m.get(&"MSFT".to_string()).is_none());
}

#[test]
fn registry_operations_report_outcomes() {
    let mut m = market_with(vec![stock("AAPL", 5, 0)]);
    let id = "AAPL".to_string();
    assert_eq!(m.apply_buy(&id, 6).err(), Some(RejectReason::InsufficientAvailable));
    assert_eq!(m.apply_buy(&id, 5).unwrap().held_stock, 5);
    assert_eq!(m.apply_sell(&id, 6).err(), Some(RejectReason::InsufficientHeld));
    assert_eq!(m.apply_sell(&id, 2).unwrap().available_stock, 2);
    let other = "ZZZ".to_string();
    assert_eq!(m.apply_sell(&other, 1).err(), Some(RejectReason::UnknownInstrument));
}

#[test]
fn price_move_sets_sell_and_marked_up_buy() {
    let mut m = market_with(vec![stock("AAPL", 5, 0)]);
    let st = m.apply_price_move(&"AAPL".to_string(), 2500, 120).unwrap();
    assert_eq!(st.sell_price, 2500);
    assert_eq!(st.buy_price, 3000);
    assert_eq!(st.available_stock, 5);
    assert_eq!(
        m.apply_price_move(&"NONE".to_string(), 2500, 120).err(),
        Some(RejectReason::UnknownInstrument)
    );
}

#[test]
fn price_changes_move_each_instrument_by_its_own_step() {
    let mut m = market_with(vec![stock("A", 1, 0), stock("B", 1, 0)]);
    m.simulate_price_changes(&vec![500, -500], 120);
    let a = m.stock_at(0);
    let b = m.stock_at(1);
    assert_eq!((a.sell_price, a.buy_price), (3150, 3780));
    assert_eq!((b.sell_price, b.buy_price), (2850, 3420));
}

#[test]
fn snapshots_copy_each_instrument() {
    let m = market_with(vec![stock("A", 4, 2)]);
    let s = m.snapshots(11);
    assert_eq!(s.len(), 1);
    assert_eq!(s[0].id, "A");
    assert_eq!(s[0].sell_price, 3000);
    assert_eq!(s[0].buy_price, 3600);
    assert_eq!(s[0].available_stock, 4);
    assert_eq!(s[0].sequence, 11);
}

#[test]
fn stock_table_lists_each_instrument() {
    let mut m = StockMarket::new();
    m.list_stock(Stock {
        id: "AAPL".to_string(),
        name: "Apple".to_string(),
        sell_price: 3005,
        buy_price: 3606,
        available_stock: 90,
        held_stock: 10,
    })
    .unwrap();
    let table = m.generate_stock_table();
    assert!(table.contains("Stock ID"));
    assert!(table.contains("Available Stock"));
    assert!(table.contains("AAPL"));
    assert!(table.contains("Apple"));
    assert!(table.contains("30.05"));
    assert!(table.contains("36.06"));
    assert!(table.contains("90"));
    assert!(!table.contains("Held"));
    assert_eq!(table.lines().filter(|l| l.contains('|')).count(), 2);
}

#[test]
fn stock_table_of_empty_registry_has_only_titles() {
    let table = StockMarket::new().generate_stock_table();
    assert!(table.contains("Sell Price"));
    assert_eq!(table.lines().filter(|l| l.contains('|')).count(), 1);
}
