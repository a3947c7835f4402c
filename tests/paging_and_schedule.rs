use fra_bot::paging::page_count;
use fra_bot::schedule::FloorSchedule;

#[test]
fn exact_multiple_takes_no_extra_page() {
    assert_eq!(page_count(100, 50), 2);
}

#[test]
fn partial_last_page_is_counted() {
    assert_eq!(page_count(120, 50), 3);
    assert_eq!(page_count(1, 50), 1);
    assert_eq!(page_count(49, 50), 1);
    assert_eq!(page_count(51, 50), 2);
}

#[test]
fn empty_feed_has_no_pages() {
    assert_eq!(page_count(0, 50), 0);
}

#[test]
fn largest_totals_do_not_overflow() {
    assert_eq!(page_count(u64::MAX, 1), u64::MAX);
    assert_eq!(page_count(u64::MAX, 2), 1u64 << 63);
    assert_eq!(page_count(u64::MAX, u64::MAX), 1);
}

#[test]
fn pages_cover_every_item_once() {
    for total in 0u64..260 {
        for size in 1u64..60 {
            let pages = page_count(total, size);
            let mut seen = 0u64;
            for p in 1..=pages {
                let before = (p - 1) * size;
                let on_page = std::cmp::min(size, total - before);
                assert!(on_page > 0);
                seen += on_page;
            }
            assert_eq!(seen, total);
        }
    }
}

#[test]
fn empty_schedule_is_refused() {
    assert!(FloorSchedule::new(vec![], 0).is_none());
}

#[test]
fn start_position_wraps() {
    let s = FloorSchedule::new(vec![5, 6, 7], 7).unwrap();
    assert_eq!(s.position(), 1);
    assert_eq!(s.current(), 6);
    assert_eq!(s.len(), 3);
}

#[test]
fn advances_cycle_through_six_prices() {
    let prices = vec![123000000, 250000000, 450000000, 200000000, 220000000, 300000000];
    let mut s = FloorSchedule::new(prices.clone(), 1).unwrap();
    let mut visited = Vec::new();
    for _ in 0..9 {
        visited.push(s.position());
        assert_eq!(s.current(), prices[s.position()]);
        s.advance();
    }
    assert_eq!(visited, vec![1, 2, 3, 4, 5, 0, 1, 2, 3]);
}

#[test]
fn k_advances_land_on_k_mod_len() {
    for len in 1usize..8 {
        for k in 0usize..30 {
            let mut s = FloorSchedule::new(vec![0; len], 0).unwrap();
            for _ in 0..k {
                s.advance();
            }
            assert_eq!(s.position(), k % len);
        }
    }
}
