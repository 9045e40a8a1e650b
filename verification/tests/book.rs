use kalshi_mm::market_data::{snapshot_fits, BookSide, OrderBook, Side, TopOfBook};

fn side_of(levels: &[(i64, i64)]) -> BookSide {
    let mut side = BookSide::new();
    side.apply_snapshot(levels);
    side
}

#[test]
fn new_side_is_empty() {
    let side = BookSide::new();
    assert_eq!(side.best_bid, 0);
    assert_eq!(side.occupied, 0);
    assert_eq!(side.total_qty, 0);
    assert_eq!(side.best_bid_qty(), 0);
    assert!(side.quantities.iter().all(|q| *q == 0));
}

#[test]
fn snapshot_loads_levels() {
    let side = side_of(&[(40, 10), (42, 3), (0, 99), (100, 99), (-5, 1)]);
    assert_eq!(side.best_bid, 42);
    assert_eq!(side.best_bid_qty(), 3);
    assert_eq!(side.total_qty, 13);
    assert_eq!(side.quantities[40], 10);
    assert_eq!(side.occupied, (1u128 << 40) | (1u128 << 42));
}

#[test]
fn snapshot_replaces_what_was_there() {
    let mut side = side_of(&[(99, 1), (1, 2)]);
    side.apply_snapshot(&[(7, 5)]);
    assert_eq!(side.best_bid, 7);
    assert_eq!(side.total_qty, 5);
    assert_eq!(side.quantities[99], 0);
}

#[test]
fn last_of_a_repeated_level_counts() {
    let side = side_of(&[(50, 10), (50, 0)]);
    assert_eq!(side.quantities[50], 0);
    assert_eq!(side.occupied, 0);
    assert_eq!(side.best_bid, 0);
    assert_eq!(side.top_n(5), vec![]);
    let side = side_of(&[(50, 0), (40, 3), (50, 10), (40, -3)]);
    assert_eq!(side.quantities[50], 10);
    assert_eq!(side.quantities[40], -3);
    assert_eq!(side.top_n(5), vec![(50, 10)]);
}

#[test]
fn order_of_levels_does_not_matter() {
    let a = side_of(&[(40, 10), (35, 4), (-1, 5), (60, -2)]);
    let b = side_of(&[(60, -2), (-1, 5), (35, 4), (40, 10)]);
    assert_eq!(a.quantities, b.quantities);
    assert_eq!((a.occupied, a.best_bid, a.total_qty), (b.occupied, b.best_bid, b.total_qty));
    assert_eq!(a.best_bid, 40);
}

#[test]
fn delta_at_a_negative_quantity() {
    let mut side = side_of(&[(40, -5), (30, 2)]);
    assert_eq!((side.best_bid, side.total_qty), (30, -3));
    side.apply_delta(40, 7);
    assert_eq!((side.best_bid, side.quantities[40], side.total_qty), (40, 2, 4));
}

#[test]
fn delta_moves_the_best_bid() {
    let mut side = side_of(&[(40, 10), (35, 4)]);
    side.apply_delta(41, 2);
    assert_eq!(side.best_bid, 41);
    side.apply_delta(41, -2);
    assert_eq!(side.best_bid, 40);
    side.apply_delta(40, -100);
    assert_eq!(side.best_bid, 35);
    assert_eq!(side.quantities[40], 0);
    assert_eq!(side.total_qty, 4);
    side.apply_delta(35, -4);
    assert_eq!(side.best_bid, 0);
    assert_eq!(side.occupied, 0);
}

#[test]
fn delta_outside_the_range_is_ignored() {
    let mut side = side_of(&[(40, 10)]);
    side.apply_delta(0, 5);
    side.apply_delta(100, 5);
    side.apply_delta(i64::MIN, 5);
    assert_eq!(side.best_bid, 40);
    assert_eq!(side.total_qty, 10);
}

#[test]
fn delta_undone_gives_the_side_back() {
    let mut side = side_of(&[(40, 10), (35, 4)]);
    side.apply_delta(60, 7);
    side.apply_delta(60, -7);
    assert_eq!(side.best_bid, 40);
    assert_eq!(side.total_qty, 14);
    assert_eq!(side.occupied, (1u128 << 40) | (1u128 << 35));
}

#[test]
fn deltas_at_two_prices_commute() {
    let mut a = side_of(&[(40, 10)]);
    let mut b = side_of(&[(40, 10)]);
    a.apply_delta(40, -10);
    a.apply_delta(50, 3);
    b.apply_delta(50, 3);
    b.apply_delta(40, -10);
    assert_eq!(a.quantities, b.quantities);
    assert_eq!(a.occupied, b.occupied);
    assert_eq!(a.best_bid, b.best_bid);
    assert_eq!(a.total_qty, b.total_qty);
}

#[test]
fn best_bid_below_finds_the_next_price() {
    let side = side_of(&[(40, 10), (35, 4), (1, 1)]);
    assert_eq!(side.best_bid_below(100), 40);
    assert_eq!(side.best_bid_below(41), 40);
    assert_eq!(side.best_bid_below(40), 35);
    assert_eq!(side.best_bid_below(35), 1);
    assert_eq!(side.best_bid_below(2), 1);
    assert_eq!(side.best_bid_below(1), 0);
    assert_eq!(side.best_bid_below(i64::MIN), 0);
    assert_eq!(side.best_bid_below(127), 40);
}

#[test]
fn top_n_lists_best_first() {
    let side = side_of(&[(35, 4), (40, 10), (1, 1), (99, 8)]);
    assert_eq!(side.top_n(2), vec![(99, 8), (40, 10)]);
    assert_eq!(side.top_n(10), vec![(99, 8), (40, 10), (35, 4), (1, 1)]);
    assert_eq!(side.top_n(0), vec![]);
    assert_eq!(BookSide::new().top_n(3), vec![]);
}

#[test]
fn snapshot_that_overflows_is_told() {
    assert!(snapshot_fits(&[(40, i64::MAX), (41, 0)]));
    assert!(!snapshot_fits(&[(40, i64::MAX), (41, 1)]));
    assert!(snapshot_fits(&[(40, i64::MAX), (100, 1)]));
    assert!(!snapshot_fits(&[(40, i64::MIN), (41, -1), (42, 5)]));
}

#[test]
fn book_takes_updates_in_sequence_only() {
    let mut book = OrderBook::new();
    assert!(!book.initialized);
    book.apply_snapshot(&[(40, 10)], &[(55, 7)], 100);
    assert!(book.initialized);
    assert!(book.apply_delta(Side::Yes, 41, 2, 101));
    assert_eq!(book.best_yes_bid(), 41);
    assert!(!book.apply_delta(Side::Yes, 44, 2, 103));
    assert!(!book.apply_delta(Side::Yes, 44, 2, 101));
    assert_eq!(book.best_yes_bid(), 41);
    assert_eq!(book.seq, 101);
    assert!(book.apply_delta(Side::No, 55, -7, 102));
    assert_eq!(book.best_yes_ask(), 0);
}

#[test]
fn book_prices() {
    let mut book = OrderBook::new();
    assert_eq!(book.yes_spread(), i64::MAX);
    assert_eq!(book.two_sided(), None);
    book.apply_snapshot(&[(40, 10)], &[(55, 7)], 1);
    assert_eq!(book.best_yes_bid(), 40);
    assert_eq!(book.best_yes_ask(), 45);
    assert_eq!(book.yes_spread(), 5);
    assert_eq!(book.two_sided(), Some(TopOfBook { bid: 40, ask: 45, bid_qty: 10, ask_qty: 7 }));
    book.apply_snapshot(&[(60, 10)], &[(55, 7)], 2);
    assert_eq!(book.yes_spread(), -15);
    assert_eq!(book.two_sided(), None);
}

#[test]
fn delta_that_overflows_is_told() {
    let mut book = OrderBook::new();
    book.apply_snapshot(&[(40, i64::MAX)], &[(30, -5)], 1);
    assert!(!book.accepts_delta(Side::Yes, 40, 1, 2));
    assert!(!book.accepts_delta(Side::Yes, 41, 1, 2));
    assert!(book.accepts_delta(Side::Yes, 41, 1, 7));
    assert!(book.accepts_delta(Side::Yes, 100, 1, 2));
    assert!(book.accepts_delta(Side::No, 30, 1, 2));
    book.seq = u64::MAX;
    assert!(!book.accepts_delta(Side::No, 30, 1, 2));
}

#[test]
fn clone_is_the_same_book() {
    let mut book = OrderBook::new();
    book.apply_snapshot(&[(40, 10)], &[(55, 7)], 9);
    let copy = book.clone();
    assert_eq!(copy.seq, 9);
    assert_eq!(copy.yes_bids.top_n(5), book.yes_bids.top_n(5));
    assert_eq!(copy.no_bids.top_n(5), book.no_bids.top_n(5));
    assert_eq!(copy.last_update, book.last_update);
}
