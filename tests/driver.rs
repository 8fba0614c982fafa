use stock_market::driver::PriceDriver;
use stock_market::market::{Stock, StockMarket};

fn market() -> StockMarket {
    let mut m = StockMarket::new();
    for (id, price, units) in [("G1", 180000u32, 100u32), ("S1", 2500, 500), ("P1", 300, 300)] {
        m.list_stock(Stock {
            id: id.to_string(),
            name: id.to_string(),
            sell_price: price,
            buy_price: price as u64,
            available_stock: units,
            held_stock: 0,
        })
        .unwrap();
    }
    m
}

#[test]
fn tick_moves_prices_within_the_bound_and_keeps_inventory() {
    let mut m = market();
    let mut d = PriceDriver::seeded(7, 120, 500);
    let before: Vec<u32> = (0..m.len()).map(|i| m.stock_at(i).sell_price).collect();
    let updates = d.tick(&mut m);
    assert_eq!(updates.len(), 3);
    for i in 0..m.len() {
        let st = m.stock_at(i);
        let old = before[i] as i64;
        let new = st.sell_price as i64;
        assert!((new - old).abs() * 10000 <= old * 500);
        assert_eq!(st.buy_price, st.sell_price as u64 * 120 / 100);
        assert_eq!(updates[i].id, st.id);
        assert_eq!(updates[i].sell_price, st.sell_price);
        assert_eq!(updates[i].sequence, 0);
        assert_eq!(st.available_stock + st.held_stock, [100, 500, 300][i]);
    }
    assert_eq!(d.sequence(), 1);
    let again = d.tick(&mut m);
    assert_eq!(again[0].sequence, 1);
}

#[test]
fn ticks_eventually_move_a_price() {
    let mut m = market();
    let mut d = PriceDriver::seeded(42, 120, 500);
    let start = m.stock_at(0).sell_price;
    let mut moved = false;
    for _ in 0..20 {
        d.tick(&mut m);
        if m.stock_at(0).sell_price != start {
            moved = true;
        }
    }
    assert!(moved);
}

#[test]
fn same_seed_gives_same_prices() {
    let mut m1 = market();
    let mut m2 = market();
    let mut d1 = PriceDriver::seeded(3, 120, 500);
    let mut d2 = PriceDriver::seeded(3, 120, 500);
    for _ in 0..5 {
        d1.tick(&mut m1);
        d2.tick(&mut m2);
    }
    for i in 0..m1.len() {
        assert_eq!(m1.stock_at(i).sell_price, m2.stock_at(i).sell_price);
    }
}

#[test]
fn quotes_lie_in_the_range() {
    let mut d = PriceDriver::seeded(1, 120, 500);
    let ids = vec!["AAPL".to_string(), "GOOGL".to_string(), "AMZN".to_string()];
    let mut seen_other_than_low = false;
    for round in 0..10u64 {
        let q = d.quote_prices(&ids, 1000, 10000);
        assert_eq!(q.len(), 3);
        for (i, u) in q.iter().enumerate() {
            assert_eq!(u.id, ids[i]);
            assert!(u.sell_price >= 1000 && u.sell_price < 10000);
            assert_eq!(u.buy_price, u.sell_price as u64 * 120 / 100);
            assert_eq!(u.sequence, round);
            if u.sell_price != 1000 {
                seen_other_than_low = true;
            }
        }
    }
    assert!(seen_other_than_low);
}

#[test]
fn quotes_over_a_one_cent_range() {
    let mut d = PriceDriver::seeded(1, 100, 1);
    let q = d.quote_prices(&vec!["X".to_string()], 5, 6);
    assert_eq!(q[0].sell_price, 5);
    assert_eq!(q[0].buy_price, 5);
}
