use vending_pricing::PricingEngine;
use vending_pricing::PurchaseOutcome;

// Prices are in tenths of a currency unit: 1000 is a base price of 100.0.

#[test]
fn new_machine_starts_full() {
    let e = PricingEngine::new(1000, 10, 7);
    assert_eq!(e.base_price, 1000);
    assert_eq!(e.total_stock, 10);
    assert_eq!(e.remaining_stock, 10);
    assert_eq!(e.purchase_count, 0);
    assert_eq!(e.last_purchase_time, 7);
    assert!(e.demand_window.is_empty());
}

#[test]
fn stock_plus_sales_accounts_for_total_after_every_purchase() {
    let mut e = PricingEngine::new(1000, 10, 0);
    for i in 0..12u64 {
        e.purchase(i);
        assert_eq!(e.remaining_stock + e.purchase_count, e.total_stock);
    }
}

#[test]
fn full_stock_price_is_base() {
    let e = PricingEngine::new(1000, 10, 0);
    assert_eq!(e.price_by_stock(), 1000);
}

#[test]
fn exhausted_stock_price_is_triple_base() {
    let mut e = PricingEngine::new(1000, 10, 0);
    for _ in 0..10 {
        e.purchase(0);
    }
    assert_eq!(e.remaining_stock, 0);
    assert_eq!(e.price_by_stock(), 3000);
}

#[test]
fn bonding_price_before_sales_is_base() {
    let e = PricingEngine::new(1000, 10, 0);
    assert_eq!(e.price_by_bonding_curve(), 1000);
}

#[test]
fn demand_price_of_empty_window_is_base() {
    let e = PricingEngine::new(1000, 10, 0);
    assert_eq!(e.price_by_demand(0), 1000);
}

#[test]
fn demand_price_of_aged_out_window_is_base() {
    let mut e = PricingEngine::new(1000, 10, 0);
    e.purchase(0);
    e.purchase(5);
    assert_eq!(e.price_by_demand(1000), 1000);
}

#[test]
fn demand_window_boundary_is_inclusive() {
    let mut e = PricingEngine::new(1000, 10, 0);
    e.purchase(0);
    // thirty whole seconds later the sale still counts; one more and it is out
    assert_eq!(e.price_by_demand(30), 1050);
    assert_eq!(e.price_by_demand(31), 1000);
}

#[test]
fn out_of_stock_leaves_state_unchanged() {
    let mut e = PricingEngine::new(1000, 2, 0);
    e.purchase(1);
    e.purchase(2);
    assert_eq!(e.remaining_stock, 0);
    let window_before = e.demand_window.clone();
    let out = e.purchase(3);
    assert_eq!(out, PurchaseOutcome::OutOfStock);
    assert_eq!(e.remaining_stock, 0);
    assert_eq!(e.purchase_count, 2);
    assert_eq!(e.last_purchase_time, 2);
    assert_eq!(e.demand_window, window_before);
}

#[test]
fn first_purchase_scenario() {
    // base 100.0, stock 10: stock 110.0, demand 105.0, bonding 102.0, mix 106.9
    let mut e = PricingEngine::new(1000, 10, 0);
    let out = e.purchase(0);
    assert_eq!(e.price_by_stock(), 1100);
    assert_eq!(e.price_by_demand(0), 1050);
    assert_eq!(e.price_by_bonding_curve(), 1020);
    assert_eq!(e.current_price(0), 1069);
    assert_eq!(out, PurchaseOutcome::Sold(1069));
}

#[test]
fn second_purchase_scenario() {
    // stock 120.0, demand 110.0, bonding 2 * floor(2^1.3 * 10)/10 + 100 = 104.8
    let mut e = PricingEngine::new(1000, 10, 0);
    e.purchase(0);
    let out = e.purchase(0);
    assert_eq!(e.price_by_stock(), 1200);
    assert_eq!(e.price_by_demand(0), 1100);
    assert_eq!(e.price_by_bonding_curve(), 1048);
    assert_eq!(out, PurchaseOutcome::Sold(1139));
}

#[test]
fn exhausted_machine_price_scenario() {
    // stock 300.0, demand 150.0, bonding 2 * floor(10^1.3 * 10)/10 + 100 = 139.8
    let mut e = PricingEngine::new(1000, 10, 0);
    for _ in 0..10 {
        e.purchase(0);
    }
    assert_eq!(e.price_by_stock(), 3000);
    assert_eq!(e.price_by_demand(0), 1500);
    assert_eq!(e.price_by_bonding_curve(), 1398);
    assert_eq!(e.current_price(0), 2229);
}

#[test]
fn eleventh_purchase_is_out_of_stock() {
    let mut e = PricingEngine::new(1000, 10, 0);
    for _ in 0..10 {
        let out = e.purchase(0);
        assert!(matches!(out, PurchaseOutcome::Sold(_)));
    }
    let out = e.purchase(0);
    assert_eq!(out, PurchaseOutcome::OutOfStock);
    assert_eq!(e.remaining_stock, 0);
}

#[test]
fn current_price_is_stable_between_events() {
    let mut e = PricingEngine::new(1000, 10, 0);
    e.purchase(4);
    let first = e.current_price(10);
    let second = e.current_price(10);
    let third = e.current_price(10);
    assert_eq!(first, second);
    assert_eq!(second, third);
}

#[test]
fn purchase_prunes_stale_window_entries() {
    let mut e = PricingEngine::new(1000, 10, 0);
    e.purchase(0);
    e.purchase(100);
    assert_eq!(e.demand_window, vec![100]);
    e.purchase(110);
    assert_eq!(e.demand_window, vec![100, 110]);
}

#[test]
fn largest_machine_drains_to_zero() {
    let base = vending_pricing::engine::MAX_BASE_PRICE;
    let total = vending_pricing::engine::MAX_TOTAL_STOCK;
    let mut e = PricingEngine::new(base, total, 0);
    assert_eq!(e.price_by_stock(), base);
    assert_eq!(e.price_by_bonding_curve(), base);
    let mut t: u64 = 0;
    while e.remaining_stock > 0 {
        let out = e.purchase(t);
        assert!(matches!(out, PurchaseOutcome::Sold(_)));
        assert_eq!(e.remaining_stock + e.purchase_count, e.total_stock);
        t += 60;
    }
    assert_eq!(e.purchase_count, total);
    assert_eq!(e.price_by_stock(), 3 * base);
    assert!(e.price_by_bonding_curve() > base);
    assert_eq!(e.purchase(t), PurchaseOutcome::OutOfStock);
}

#[test]
fn purchase_records_time_of_sale() {
    let mut e = PricingEngine::new(1000, 10, 0);
    e.purchase(42);
    assert_eq!(e.last_purchase_time, 42);
    assert_eq!(e.demand_window, vec![42]);
}
