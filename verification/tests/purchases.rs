use cafehub::amount::Amount;
use cafehub::cart::CartError;
use cafehub::commands::purchase_goods;
use cafehub::models::{Month, PurchaseGoodsData, PurchaseItem};
use cafehub::purchase::{PurchaseError, PurchaseOutcome};
use cafehub::store::MemoryStore;

fn money(mantissa: i128, scale: u32) -> Amount {
    Amount::new(mantissa, scale).unwrap()
}

fn may() -> Month {
    Month { year: 2024, month: 5 }
}

fn june() -> Month {
    Month { year: 2024, month: 6 }
}

fn cart(user_id: i64, lines: &[(i32, i32)]) -> PurchaseGoodsData {
    PurchaseGoodsData {
        user_id,
        items: lines
            .iter()
            .map(|&(goods_id, quantity)| PurchaseItem { goods_id, quantity })
            .collect(),
    }
}

fn stock_of(store: &MemoryStore, goods_id: i32) -> Option<i32> {
    store.goods(goods_id).unwrap().stock
}

fn balance_is(store: &MemoryStore, user_id: i64, expected: Amount) -> bool {
    store.balance(user_id).unwrap().same_value(expected)
}

fn booked_is(store: &MemoryStore, user_id: i64, month: Month, goods_id: i32, expected: Amount) -> bool {
    store.booked(user_id, month, goods_id).unwrap().same_value(expected)
}

#[test]
fn short_stock_leaves_everything_as_it_was() {
    let mut store = MemoryStore::new();
    store.put_goods(1, money(350, 2), Some(2));
    store.put_customer(7, money(10000, 2));
    let result = purchase_goods(cart(7, &[(1, 3)]), may(), &mut store);
    assert_eq!(result, Ok(Ok(PurchaseOutcome::InsufficientStock)));
    assert_eq!(stock_of(&store, 1), Some(2));
    assert!(balance_is(&store, 7, money(10000, 2)));
    assert!(store.booked(7, may(), 1).is_none());
}

#[test]
fn short_balance_leaves_everything_as_it_was() {
    let mut store = MemoryStore::new();
    store.put_goods(2, money(400, 2), Some(5));
    store.put_customer(7, money(1000, 2));
    let result = purchase_goods(cart(7, &[(2, 3)]), may(), &mut store);
    assert_eq!(result, Ok(Ok(PurchaseOutcome::InsufficientBalance)));
    assert_eq!(stock_of(&store, 2), Some(5));
    assert!(balance_is(&store, 7, money(1000, 2)));
    assert!(store.booked(7, may(), 2).is_none());
}

#[test]
fn purchase_debits_stock_and_balance_and_books_the_ledger() {
    let mut store = MemoryStore::new();
    store.put_goods(2, money(400, 2), Some(5));
    store.put_customer(7, money(1000, 2));
    let result = purchase_goods(cart(7, &[(2, 2)]), may(), &mut store);
    assert_eq!(result, Ok(Ok(PurchaseOutcome::Success)));
    assert_eq!(stock_of(&store, 2), Some(3));
    assert!(balance_is(&store, 7, money(200, 2)));
    assert!(booked_is(&store, 7, may(), 2, money(800, 2)));
}

#[test]
fn outcome_codes_are_the_ones_callers_know() {
    assert_eq!(PurchaseOutcome::Success.code(), 0);
    assert_eq!(PurchaseOutcome::InsufficientStock.code(), 1);
    assert_eq!(PurchaseOutcome::InsufficientBalance.code(), 2);
}

#[test]
fn balance_that_just_covers_the_total_is_enough() {
    let mut store = MemoryStore::new();
    store.put_goods(2, money(400, 2), Some(2));
    store.put_customer(7, money(8, 0));
    let result = purchase_goods(cart(7, &[(2, 2)]), may(), &mut store);
    assert_eq!(result, Ok(Ok(PurchaseOutcome::Success)));
    assert_eq!(stock_of(&store, 2), Some(0));
    assert!(balance_is(&store, 7, Amount::zero()));
}

#[test]
fn several_lines_are_settled_together() {
    let mut store = MemoryStore::new();
    store.put_goods(1, money(350, 2), Some(10));
    store.put_goods(2, money(4, 0), Some(5));
    store.put_goods(3, money(125, 3), Some(1));
    store.put_customer(7, money(100, 0));
    store.put_customer(8, money(55, 0));
    let result = purchase_goods(cart(7, &[(1, 3), (2, 2), (3, 1)]), may(), &mut store);
    assert_eq!(result, Ok(Ok(PurchaseOutcome::Success)));
    assert_eq!(stock_of(&store, 1), Some(7));
    assert_eq!(stock_of(&store, 2), Some(3));
    assert_eq!(stock_of(&store, 3), Some(0));
    assert!(balance_is(&store, 7, money(81375, 3)));
    assert!(balance_is(&store, 8, money(55, 0)));
    assert!(booked_is(&store, 7, may(), 1, money(1050, 2)));
    assert!(booked_is(&store, 7, may(), 2, money(8, 0)));
    assert!(booked_is(&store, 7, may(), 3, money(125, 3)));
    assert!(store.booked(8, may(), 1).is_none());
}

#[test]
fn a_later_short_line_undoes_nothing_because_nothing_was_done() {
    let mut store = MemoryStore::new();
    store.put_goods(1, money(350, 2), Some(10));
    store.put_goods(2, money(4, 0), Some(1));
    store.put_customer(7, money(100, 0));
    let result = purchase_goods(cart(7, &[(1, 3), (2, 2)]), may(), &mut store);
    assert_eq!(result, Ok(Ok(PurchaseOutcome::InsufficientStock)));
    assert_eq!(stock_of(&store, 1), Some(10));
    assert_eq!(stock_of(&store, 2), Some(1));
    assert!(balance_is(&store, 7, money(100, 0)));
    assert!(store.booked(7, may(), 1).is_none());
}

#[test]
fn repeated_purchase_adds_to_the_same_ledger_entry() {
    let mut store = MemoryStore::new();
    store.put_goods(2, money(400, 2), Some(5));
    store.put_customer(7, money(2000, 2));
    assert_eq!(
        purchase_goods(cart(7, &[(2, 2)]), may(), &mut store),
        Ok(Ok(PurchaseOutcome::Success))
    );
    assert!(booked_is(&store, 7, may(), 2, money(8, 0)));
    assert_eq!(
        purchase_goods(cart(7, &[(2, 1)]), may(), &mut store),
        Ok(Ok(PurchaseOutcome::Success))
    );
    assert!(booked_is(&store, 7, may(), 2, money(12, 0)));
    assert_eq!(stock_of(&store, 2), Some(2));
    assert!(balance_is(&store, 7, money(8, 0)));
}

#[test]
fn another_month_gets_an_entry_of_its_own() {
    let mut store = MemoryStore::new();
    store.put_goods(2, money(400, 2), Some(5));
    store.put_customer(7, money(2000, 2));
    assert_eq!(
        purchase_goods(cart(7, &[(2, 2)]), may(), &mut store),
        Ok(Ok(PurchaseOutcome::Success))
    );
    assert_eq!(
        purchase_goods(cart(7, &[(2, 1)]), june(), &mut store),
        Ok(Ok(PurchaseOutcome::Success))
    );
    assert!(booked_is(&store, 7, may(), 2, money(8, 0)));
    assert!(booked_is(&store, 7, june(), 2, money(4, 0)));
}

#[test]
fn duplicate_lines_are_served_as_one() {
    let mut store = MemoryStore::new();
    store.put_goods(1, money(150, 2), Some(3));
    store.put_customer(7, money(10, 0));
    let result = purchase_goods(cart(7, &[(1, 2), (1, 2)]), may(), &mut store);
    assert_eq!(result, Ok(Ok(PurchaseOutcome::InsufficientStock)));
    assert_eq!(stock_of(&store, 1), Some(3));
    let result = purchase_goods(cart(7, &[(1, 2), (1, 1)]), may(), &mut store);
    assert_eq!(result, Ok(Ok(PurchaseOutcome::Success)));
    assert_eq!(stock_of(&store, 1), Some(0));
    assert!(balance_is(&store, 7, money(550, 2)));
    assert!(booked_is(&store, 7, may(), 1, money(450, 2)));
}

#[test]
fn empty_stock_column_counts_as_no_stock() {
    let mut store = MemoryStore::new();
    store.put_goods(1, money(150, 2), None);
    store.put_customer(7, money(10, 0));
    let result = purchase_goods(cart(7, &[(1, 1)]), may(), &mut store);
    assert_eq!(result, Ok(Ok(PurchaseOutcome::InsufficientStock)));
    assert_eq!(stock_of(&store, 1), None);
}

#[test]
fn cart_errors_come_before_the_store_is_asked() {
    let mut store = MemoryStore::new();
    assert_eq!(purchase_goods(cart(7, &[]), may(), &mut store), Err(CartError::Empty));
    assert_eq!(
        purchase_goods(cart(7, &[(9, 0)]), may(), &mut store),
        Err(CartError::NonPositiveQuantity { goods_id: 9 })
    );
}

#[test]
fn lines_that_add_up_to_more_than_any_stock_are_short_of_stock() {
    let mut store = MemoryStore::new();
    store.put_goods(1, money(1, 2), Some(i32::MAX - 1));
    store.put_customer(7, money(1000, 2));
    assert_eq!(
        purchase_goods(cart(7, &[(1, i32::MAX), (1, 1)]), may(), &mut store),
        Ok(Ok(PurchaseOutcome::InsufficientStock))
    );
    store.put_goods(1, money(1, 2), Some(i32::MAX));
    assert_eq!(
        purchase_goods(cart(7, &[(1, i32::MAX), (1, 1)]), may(), &mut store),
        Ok(Ok(PurchaseOutcome::InsufficientStock))
    );
    assert_eq!(
        purchase_goods(cart(7, &[(1, i32::MAX - 1), (1, 1), (1, 1)]), may(), &mut store),
        Ok(Ok(PurchaseOutcome::InsufficientStock))
    );
    assert_eq!(stock_of(&store, 1), Some(i32::MAX));
    assert!(balance_is(&store, 7, money(1000, 2)));
    assert_eq!(
        purchase_goods(cart(7, &[(9, i32::MAX), (9, 1)]), may(), &mut store),
        Ok(Err(PurchaseError::GoodsNotFound { goods_id: 9 }))
    );
}

#[test]
fn an_item_that_wants_more_than_is_in_stock_decides_whatever_follows() {
    let mut store = MemoryStore::new();
    store.put_goods(1, money(350, 2), Some(2));
    store.put_goods(2, money(4, 0), Some(5));
    assert_eq!(
        purchase_goods(cart(7, &[(2, 1), (1, 3), (9, 1), (2, 1)]), may(), &mut store),
        Ok(Ok(PurchaseOutcome::InsufficientStock))
    );
    assert_eq!(stock_of(&store, 1), Some(2));
    assert_eq!(stock_of(&store, 2), Some(5));
}

#[test]
fn the_balance_goes_down_by_the_items_as_they_were_sent() {
    let mut store = MemoryStore::new();
    store.put_goods(1, money(350, 2), Some(10));
    store.put_goods(2, money(4, 0), Some(5));
    store.put_customer(7, money(100, 0));
    assert_eq!(
        purchase_goods(cart(7, &[(1, 1), (2, 2), (1, 2)]), may(), &mut store),
        Ok(Ok(PurchaseOutcome::Success))
    );
    assert!(balance_is(&store, 7, money(8150, 2)));
    assert_eq!(stock_of(&store, 1), Some(7));
    assert_eq!(stock_of(&store, 2), Some(3));
    assert!(booked_is(&store, 7, may(), 1, money(1050, 2)));
    assert!(booked_is(&store, 7, may(), 2, money(8, 0)));
}

#[test]
fn unknown_goods_is_an_error() {
    let mut store = MemoryStore::new();
    store.put_customer(7, money(1000, 2));
    let result = purchase_goods(cart(7, &[(9, 1)]), may(), &mut store);
    assert_eq!(result, Ok(Err(PurchaseError::GoodsNotFound { goods_id: 9 })));
}

#[test]
fn the_first_line_that_cannot_be_served_decides() {
    let mut store = MemoryStore::new();
    store.put_goods(1, money(1, 0), Some(1));
    store.put_customer(7, money(1000, 2));
    assert_eq!(
        purchase_goods(cart(7, &[(1, 2), (9, 1)]), may(), &mut store),
        Ok(Ok(PurchaseOutcome::InsufficientStock))
    );
    assert_eq!(
        purchase_goods(cart(7, &[(9, 1), (1, 2)]), may(), &mut store),
        Ok(Err(PurchaseError::GoodsNotFound { goods_id: 9 }))
    );
}

#[test]
fn unknown_customer_is_an_error() {
    let mut store = MemoryStore::new();
    store.put_goods(1, money(1, 0), Some(1));
    let result = purchase_goods(cart(7, &[(1, 1)]), may(), &mut store);
    assert_eq!(result, Ok(Err(PurchaseError::CustomerNotFound { user_id: 7 })));
    assert_eq!(stock_of(&store, 1), Some(1));
}

#[test]
fn stock_is_checked_before_the_customer_is_looked_up() {
    let mut store = MemoryStore::new();
    store.put_goods(1, money(1, 0), Some(1));
    let result = purchase_goods(cart(7, &[(1, 2)]), may(), &mut store);
    assert_eq!(result, Ok(Ok(PurchaseOutcome::InsufficientStock)));
}

#[test]
fn a_cost_that_cannot_be_computed_exactly_is_an_error() {
    let mut store = MemoryStore::new();
    store.put_goods(1, money(1i128 << 95, 0), Some(5));
    store.put_customer(7, money(1000, 2));
    let result = purchase_goods(cart(7, &[(1, 2)]), may(), &mut store);
    assert_eq!(result, Ok(Err(PurchaseError::AmountOverflow)));
    assert_eq!(stock_of(&store, 1), Some(5));
    assert!(balance_is(&store, 7, money(1000, 2)));
}

#[test]
fn a_store_that_cannot_compute_the_new_balance_fails_and_keeps_nothing() {
    let mut store = MemoryStore::new();
    store.put_goods(1, money(1, 2), Some(5));
    store.put_customer(7, money(1i128 << 95, 0));
    let result = purchase_goods(cart(7, &[(1, 1)]), may(), &mut store);
    assert_eq!(result, Ok(Err(PurchaseError::StoreFailure)));
    assert_eq!(stock_of(&store, 1), Some(5));
    assert!(balance_is(&store, 7, money(1i128 << 95, 0)));
    assert!(store.booked(7, may(), 1).is_none());
}

#[test]
fn a_store_that_cannot_compute_the_new_ledger_amount_fails_and_keeps_nothing() {
    let mut store = MemoryStore::new();
    store.put_goods(1, money((1i128 << 96) - 1, 0), Some(5));
    store.put_customer(7, money((1i128 << 96) - 1, 0));
    assert_eq!(
        purchase_goods(cart(7, &[(1, 1)]), may(), &mut store),
        Ok(Ok(PurchaseOutcome::Success))
    );
    store.put_customer(7, money((1i128 << 96) - 1, 0));
    let result = purchase_goods(cart(7, &[(1, 1)]), may(), &mut store);
    assert_eq!(result, Ok(Err(PurchaseError::StoreFailure)));
    assert_eq!(stock_of(&store, 1), Some(4));
    assert!(balance_is(&store, 7, money((1i128 << 96) - 1, 0)));
    assert!(booked_is(&store, 7, may(), 1, money((1i128 << 96) - 1, 0)));
}
