use cafehub::amount::Amount;
use cafehub::db_config::DbConfig;
use cafehub::goods::{
    check_new_goods, check_recharge, clear_recharge, finish_add_goods, finish_goods_update,
    finish_recharge, plan_goods_update, role_or_customer, GoodsError, RechargeError,
};
use cafehub::models::{AddGoodsData, Date, Month, RechargeBalanceData, UpdateGoodsData};
use cafehub::store::WriteResult;

fn money(mantissa: i128, scale: u32) -> Amount {
    Amount::new(mantissa, scale).unwrap()
}

fn new_goods(name: &str, price: Amount, stock: Option<i32>) -> AddGoodsData {
    AddGoodsData { goods_name: name.to_string(), goods_type: None, price, stock }
}

#[test]
fn new_goods_need_a_name_and_a_price_above_zero() {
    assert_eq!(check_new_goods(&new_goods("", money(0, 0), None)), Err(GoodsError::EmptyName));
    assert_eq!(
        check_new_goods(&new_goods("tea", money(0, 2), Some(3))),
        Err(GoodsError::NonPositivePrice)
    );
    assert_eq!(
        check_new_goods(&new_goods("tea", money(-1, 2), Some(3))),
        Err(GoodsError::NonPositivePrice)
    );
    assert_eq!(
        check_new_goods(&new_goods("tea", money(1, 2), Some(-1))),
        Err(GoodsError::NegativeStock)
    );
    assert_eq!(
        check_new_goods(&new_goods("tea", money(0, 2), Some(-1))),
        Err(GoodsError::NonPositivePrice)
    );
    assert_eq!(check_new_goods(&new_goods("tea", money(1, 2), Some(0))), Ok(0));
    assert_eq!(check_new_goods(&new_goods("tea", money(1, 2), Some(3))), Ok(3));
    assert_eq!(check_new_goods(&new_goods("tea", money(1, 2), None)), Ok(0));
}

#[test]
fn add_goods_outcomes() {
    assert_eq!(finish_add_goods(WriteResult::Written { rows: 1 }), Ok(()));
    assert_eq!(finish_add_goods(WriteResult::UniqueViolation), Err(GoodsError::NameTaken));
    assert_eq!(finish_add_goods(WriteResult::Failed), Err(GoodsError::StoreFailure));
}

#[test]
fn goods_update_checks_stock_then_price() {
    let both_wrong = UpdateGoodsData { stock: Some(-1), price: Some(money(0, 0)) };
    assert_eq!(plan_goods_update(both_wrong).err(), Some(GoodsError::NegativeStock));
    let price_wrong = UpdateGoodsData { stock: Some(0), price: Some(money(0, 0)) };
    assert_eq!(plan_goods_update(price_wrong).err(), Some(GoodsError::NonPositivePrice));
    let nothing = UpdateGoodsData { stock: None, price: None };
    assert!(plan_goods_update(nothing).ok().unwrap().is_none());
    let stock_only = UpdateGoodsData { stock: Some(0), price: None };
    let patch = plan_goods_update(stock_only).ok().unwrap().unwrap();
    assert_eq!(patch.stock, Some(0));
    assert!(patch.price.is_none());
    let price_only = UpdateGoodsData { stock: None, price: Some(money(199, 2)) };
    let patch = plan_goods_update(price_only).ok().unwrap().unwrap();
    assert_eq!(patch.stock, None);
    assert!(patch.price.unwrap().same_value(money(199, 2)));
}

#[test]
fn goods_update_outcomes() {
    assert_eq!(finish_goods_update(3, WriteResult::Written { rows: 1 }), Ok(()));
    assert_eq!(
        finish_goods_update(3, WriteResult::Written { rows: 0 }),
        Err(GoodsError::NotFound { goods_id: 3 })
    );
    assert_eq!(finish_goods_update(3, WriteResult::Failed), Err(GoodsError::StoreFailure));
}

fn recharge(amount: Amount) -> RechargeBalanceData {
    RechargeBalanceData { user_id: 7, amount }
}

#[test]
fn recharge_needs_an_amount_above_zero() {
    assert_eq!(check_recharge(recharge(money(0, 2))), Some(RechargeError::NonPositiveAmount));
    assert_eq!(check_recharge(recharge(money(-500, 2))), Some(RechargeError::NonPositiveAmount));
    assert_eq!(check_recharge(recharge(money(1, 2))), None);
}

#[test]
fn only_customers_are_recharged() {
    let data = recharge(money(500, 2));
    assert_eq!(clear_recharge(data, None), Err(RechargeError::AccountNotFound { user_id: 7 }));
    assert_eq!(
        clear_recharge(data, Some(Some(0))),
        Err(RechargeError::NotACustomer { user_id: 7 })
    );
    assert_eq!(clear_recharge(data, Some(Some(1))), Ok(()));
    assert_eq!(clear_recharge(data, Some(None)), Ok(()));
    assert_eq!(role_or_customer(None), 1);
    assert_eq!(role_or_customer(Some(0)), 0);
}

#[test]
fn recharge_outcomes() {
    let data = recharge(money(500, 2));
    assert_eq!(finish_recharge(data, WriteResult::Written { rows: 1 }), Ok(()));
    assert_eq!(
        finish_recharge(data, WriteResult::Written { rows: 0 }),
        Err(RechargeError::NothingUpdated { user_id: 7 })
    );
    assert_eq!(finish_recharge(data, WriteResult::Failed), Err(RechargeError::StoreFailure));
}

#[test]
fn default_configuration_points_at_the_local_store() {
    let config = DbConfig::default_value();
    assert_eq!(
        config.connection_string,
        "host=localhost port=5432 user=gaussdb password=Open@123 dbname=cafehub"
    );
    assert_eq!(DbConfig::or_default(None).connection_string, config.connection_string);
    let saved = DbConfig { connection_string: "host=db".to_string() };
    assert_eq!(DbConfig::or_default(Some(saved)).connection_string, "host=db");
}

#[test]
fn a_month_is_written_as_year_and_month() {
    assert_eq!(Month { year: 2024, month: 5 }.label(), Some("2024-05".to_string()));
    assert_eq!(Month { year: 1999, month: 12 }.label(), Some("1999-12".to_string()));
    assert_eq!(Month { year: 987, month: 1 }.label(), Some("0987-01".to_string()));
    assert_eq!(Month { year: 0, month: 10 }.label(), Some("0000-10".to_string()));
    assert_eq!(Month { year: 9999, month: 9 }.label(), Some("9999-09".to_string()));
}

#[test]
fn a_month_that_does_not_exist_is_not_written() {
    assert_eq!(Month { year: 2024, month: 0 }.label(), None);
    assert_eq!(Month { year: 2024, month: 13 }.label(), None);
    assert_eq!(Month { year: 10000, month: 5 }.label(), None);
    assert_eq!(Month { year: -1, month: 5 }.label(), None);
}

#[test]
fn a_day_belongs_to_its_month() {
    let day = Date { year: 2024, month: 5, day: 17 };
    assert_eq!(day.month_of(), Month { year: 2024, month: 5 });
}
