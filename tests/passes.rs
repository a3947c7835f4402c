use fra_bot::listing::{ListingError, ListingItem, ListingPage};
use fra_bot::pass::{AggregationResult, BuyPass, Next, SupplyPass, FIRST_PAGE};
use fra_bot::scheduler::{Pass, Scheduler, Tick, PAGE_SIZE};

fn page_of(total: u64, amounts: &[u64], prices: &[u64]) -> ListingPage {
    let items = amounts
        .iter()
        .zip(prices.iter())
        .map(|(a, p)| ListingItem { amount: a.to_string(), price: p.to_string() })
        .collect();
    ListingPage { total_count: total, items: Some(items) }
}

fn page_summing(total: u64, n: usize, sum: u64) -> ListingPage {
    let mut amounts = vec![sum / n as u64; n];
    amounts[0] += sum % n as u64;
    let prices = vec![1u64; n];
    page_of(total, &amounts, &prices)
}

fn supply_three_pages(threshold: u64) -> AggregationResult {
    let mut pass = SupplyPass::new(50, threshold);
    assert_eq!(FIRST_PAGE, 1);
    assert_eq!(pass.on_page(&page_summing(120, 50, 10000)), Ok(Next::Fetch(2)));
    assert_eq!(pass.on_page(&page_summing(120, 50, 8000)), Ok(Next::Fetch(3)));
    assert_eq!(pass.on_page(&page_summing(120, 20, 500)), Ok(Next::Finished));
    pass.result()
}

#[test]
fn supply_sums_every_page() {
    let r = supply_three_pages(20000);
    assert_eq!(r.total_amount, 18500);
    assert_eq!(r.threshold, 20000);
    assert!(r.deficit);
}

#[test]
fn supply_deficit_only_below_threshold() {
    assert!(!supply_three_pages(18500).deficit);
    assert!(!supply_three_pages(100).deficit);
    assert!(supply_three_pages(18501).deficit);
}

#[test]
fn supply_exact_multiple_stops_after_two_pages() {
    let mut pass = SupplyPass::new(50, 1);
    assert_eq!(pass.on_page(&page_summing(100, 50, 50)), Ok(Next::Fetch(2)));
    assert_eq!(pass.on_page(&page_summing(100, 50, 50)), Ok(Next::Finished));
    assert_eq!(pass.result().total_amount, 100);
}

#[test]
fn supply_empty_feed_stops_at_first_page() {
    let mut pass = SupplyPass::new(50, 10);
    let empty = ListingPage { total_count: 0, items: None };
    assert_eq!(pass.on_page(&empty), Ok(Next::Finished));
    assert_eq!(
        pass.result(),
        AggregationResult { total_amount: 0, threshold: 10, deficit: true }
    );
    let mut zero = SupplyPass::new(50, 0);
    assert_eq!(zero.on_page(&empty), Ok(Next::Finished));
    assert!(!zero.result().deficit);
}

#[test]
fn supply_empty_feed_ignores_stray_items() {
    let mut pass = SupplyPass::new(50, 10);
    let odd = ListingPage {
        total_count: 0,
        items: Some(vec![ListingItem { amount: "bad".to_string(), price: "1".to_string() }]),
    };
    assert_eq!(pass.on_page(&odd), Ok(Next::Finished));
    assert_eq!(pass.result().total_amount, 0);
}

#[test]
fn supply_malformed_amount_fails() {
    let mut pass = SupplyPass::new(50, 10);
    assert_eq!(pass.on_page(&page_summing(60, 50, 100)), Ok(Next::Fetch(2)));
    let bad = ListingPage {
        total_count: 60,
        items: Some(vec![ListingItem { amount: "12x".to_string(), price: "1".to_string() }]),
    };
    assert_eq!(pass.on_page(&bad), Err(ListingError::Parse));
    assert_eq!(pass.result().total_amount, 100);
}

#[test]
fn supply_overflow_fails() {
    let mut pass = SupplyPass::new(50, 10);
    assert_eq!(pass.on_page(&page_of(60, &[u64::MAX], &[1])), Ok(Next::Fetch(2)));
    assert_eq!(pass.on_page(&page_of(60, &[1], &[1])), Err(ListingError::Overflow));
}

#[test]
fn buy_classifies_against_current_floor() {
    let mut sched = Scheduler::standard(0);
    assert_eq!(sched.floor_price(), 250000000);
    let mut pass = match sched.on_tick(Tick::Buy) {
        Pass::Buy(p) => p,
        Pass::Supply(_) => panic!("a buy tick gives a buy pass"),
    };
    assert_eq!(pass.floor_price(), 250000000);
    assert_eq!(sched.floor_index(), 2);
    let v = pass.on_page(&page_of(2, &[1, 1], &[200000000, 300000000])).unwrap();
    assert_eq!(v.eligible, vec![0]);
    assert_eq!(v.next, Next::Finished);
}

#[test]
fn buy_walks_later_pages_alike() {
    let mut pass = BuyPass::new(2, 10);
    let v1 = pass.on_page(&page_of(3, &[1, 1], &[11, 10])).unwrap();
    assert_eq!(v1.eligible, vec![1]);
    assert_eq!(v1.next, Next::Fetch(2));
    let v2 = pass.on_page(&page_of(3, &[1], &[3])).unwrap();
    assert_eq!(v2.eligible, vec![0]);
    assert_eq!(v2.next, Next::Finished);
}

#[test]
fn buy_malformed_price_fails() {
    let mut pass = BuyPass::new(50, 10);
    let bad = ListingPage {
        total_count: 1,
        items: Some(vec![ListingItem { amount: "1".to_string(), price: "cheap".to_string() }]),
    };
    assert_eq!(pass.on_page(&bad).unwrap_err(), ListingError::Parse);
}

#[test]
fn buy_empty_feed_still_advances_schedule() {
    let mut sched = Scheduler::standard(0);
    let mut pass = match sched.on_tick(Tick::Buy) {
        Pass::Buy(p) => p,
        Pass::Supply(_) => panic!("a buy tick gives a buy pass"),
    };
    let v = pass.on_page(&ListingPage { total_count: 0, items: None }).unwrap();
    assert!(v.eligible.is_empty());
    assert_eq!(v.next, Next::Finished);
    assert_eq!(sched.floor_index(), 2);
    assert_eq!(sched.floor_price(), 450000000);
}

#[test]
fn supply_tick_keeps_schedule() {
    let mut sched = Scheduler::standard(18500);
    match sched.on_tick(Tick::Supply) {
        Pass::Supply(p) => assert_eq!(p.result().threshold, 18500),
        Pass::Buy(_) => panic!("a supply tick gives a supply pass"),
    }
    assert_eq!(sched.floor_index(), 1);
    assert_eq!(sched.account_position(), 0);
    assert_eq!(PAGE_SIZE, 50);
}

#[test]
fn buy_ticks_rotate_floor_prices() {
    let mut sched = Scheduler::standard(0);
    let mut floors = Vec::new();
    for _ in 0..7 {
        if let Pass::Buy(p) = sched.on_tick(Tick::Buy) {
            floors.push(p.floor_price());
        }
    }
    assert_eq!(
        floors,
        vec![250000000, 450000000, 200000000, 220000000, 300000000, 123000000, 250000000]
    );
}
