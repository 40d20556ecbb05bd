use cafehub::amount::Amount;
use cafehub::cart::{check_cart, CartError, CartLine};
use cafehub::models::PurchaseItem;
use cafehub::pricing::price_cart;

fn items(lines: &[(i32, i32)]) -> Vec<PurchaseItem> {
    lines.iter().map(|&(goods_id, quantity)| PurchaseItem { goods_id, quantity }).collect()
}

fn money(mantissa: i128, scale: u32) -> Amount {
    Amount::new(mantissa, scale).unwrap()
}

#[test]
fn empty_cart_is_refused() {
    assert_eq!(check_cart(&items(&[])), Err(CartError::Empty));
}

#[test]
fn first_quantity_of_zero_or_less_is_named() {
    assert_eq!(
        check_cart(&items(&[(1, 2), (5, 0), (6, -1)])),
        Err(CartError::NonPositiveQuantity { goods_id: 5 })
    );
    assert_eq!(
        check_cart(&items(&[(6, -1)])),
        Err(CartError::NonPositiveQuantity { goods_id: 6 })
    );
}

#[test]
fn lines_without_duplicates_stay_as_they_are() {
    assert_eq!(
        check_cart(&items(&[(3, 1), (1, 2), (2, 7)])),
        Ok(vec![
            CartLine { goods_id: 3, quantity: 1 },
            CartLine { goods_id: 1, quantity: 2 },
            CartLine { goods_id: 2, quantity: 7 },
        ])
    );
}

#[test]
fn duplicate_goods_are_merged_where_they_first_occur() {
    assert_eq!(
        check_cart(&items(&[(3, 1), (1, 2), (3, 4), (1, 1), (9, 5)])),
        Ok(vec![
            CartLine { goods_id: 3, quantity: 5 },
            CartLine { goods_id: 1, quantity: 3 },
            CartLine { goods_id: 9, quantity: 5 },
        ])
    );
}

#[test]
fn merged_quantity_can_be_more_than_any_stock() {
    assert_eq!(
        check_cart(&items(&[(4, i32::MAX), (2, 1), (4, 1)])),
        Ok(vec![
            CartLine { goods_id: 4, quantity: 2147483648 },
            CartLine { goods_id: 2, quantity: 1 },
        ])
    );
    assert_eq!(
        check_cart(&items(&[(4, i32::MAX), (4, i32::MAX), (4, i32::MAX)])),
        Ok(vec![CartLine { goods_id: 4, quantity: 3 * 2147483647 }])
    );
}

#[test]
fn non_positive_quantity_is_found_before_merging() {
    assert_eq!(
        check_cart(&items(&[(4, i32::MAX), (4, 1), (7, 0)])),
        Err(CartError::NonPositiveQuantity { goods_id: 7 })
    );
}

#[test]
fn pricing_gives_each_subtotal_and_the_total() {
    let lines = vec![
        CartLine { goods_id: 1, quantity: 3 },
        CartLine { goods_id: 2, quantity: 2 },
        CartLine { goods_id: 3, quantity: 1 },
    ];
    let prices = vec![money(350, 2), money(4, 0), money(125, 3)];
    let (subtotals, total) = price_cart(&lines, &prices).unwrap();
    assert_eq!(subtotals.len(), 3);
    assert!(subtotals[0].same_value(money(1050, 2)));
    assert!(subtotals[1].same_value(money(8, 0)));
    assert!(subtotals[2].same_value(money(125, 3)));
    assert!(total.same_value(money(18625, 3)));
}

#[test]
fn pricing_fails_where_a_subtotal_does_not_fit() {
    let lines = vec![CartLine { goods_id: 1, quantity: 1 }, CartLine { goods_id: 2, quantity: 2 }];
    let prices = vec![money(1, 0), money(1i128 << 95, 0)];
    assert!(price_cart(&lines, &prices).is_none());
}

#[test]
fn pricing_fails_where_the_total_does_not_fit() {
    let lines = vec![CartLine { goods_id: 1, quantity: 1 }, CartLine { goods_id: 2, quantity: 1 }];
    let prices = vec![money((1i128 << 96) - 1, 0), money(1, 0)];
    assert!(price_cart(&lines, &prices).is_none());
}
