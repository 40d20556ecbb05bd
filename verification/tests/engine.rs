use cafehub::amount::Amount;
use cafehub::models::{Month, PurchaseGoodsData, PurchaseItem};
use cafehub::purchase::{
    LedgerKey, PurchaseAction, PurchaseEngine, PurchaseError, PurchaseOutcome, Step, StoreReply,
};

fn money(mantissa: i128, scale: u32) -> Amount {
    Amount::new(mantissa, scale).unwrap()
}

fn may() -> Month {
    Month { year: 2024, month: 5 }
}

fn begin(lines: &[(i32, i32)]) -> PurchaseEngine {
    let data = PurchaseGoodsData {
        user_id: 7,
        items: lines
            .iter()
            .map(|&(goods_id, quantity)| PurchaseItem { goods_id, quantity })
            .collect(),
    };
    PurchaseEngine::begin(&data, may()).unwrap()
}

fn next(engine: PurchaseEngine, reply: StoreReply) -> PurchaseEngine {
    match engine.advance(reply) {
        Step::Next(engine) => engine,
        Step::Done(result) => panic!("the purchase ended early: {:?}", result),
    }
}

fn done(engine: PurchaseEngine, reply: StoreReply) -> Result<PurchaseOutcome, PurchaseError> {
    match engine.advance(reply) {
        Step::Next(_) => panic!("the purchase went on"),
        Step::Done(result) => result,
    }
}

fn key(goods_id: i32) -> LedgerKey {
    LedgerKey { user_id: 7, month: may(), goods_id }
}

fn written() -> StoreReply {
    StoreReply::Written { rows: 1 }
}

fn priced_engine() -> PurchaseEngine {
    let engine = begin(&[(1, 3), (2, 2)]);
    let engine = next(engine, StoreReply::Goods { price: money(350, 2), stock: Some(3) });
    next(engine, StoreReply::Goods { price: money(4, 0), stock: Some(5) })
}

#[test]
fn requests_come_in_the_order_locks_checks_writes_commit() {
    let engine = begin(&[(1, 3), (2, 2)]);
    assert!(matches!(engine.request(), PurchaseAction::LockGoods { goods_id: 1 }));
    let engine = next(engine, StoreReply::Goods { price: money(350, 2), stock: Some(3) });
    assert!(matches!(engine.request(), PurchaseAction::LockGoods { goods_id: 2 }));
    let engine = next(engine, StoreReply::Goods { price: money(4, 0), stock: Some(5) });
    assert!(matches!(engine.request(), PurchaseAction::LockCustomer { user_id: 7 }));
    let engine = next(engine, StoreReply::Customer { balance: money(20, 0) });
    assert!(matches!(engine.request(), PurchaseAction::DebitStock { goods_id: 1, quantity: 3 }));
    let engine = next(engine, written());
    assert!(matches!(engine.request(), PurchaseAction::DebitStock { goods_id: 2, quantity: 2 }));
    let engine = next(engine, written());
    match engine.request() {
        PurchaseAction::DebitBalance { user_id, amount } => {
            assert_eq!(user_id, 7);
            assert!(amount.same_value(money(1850, 2)));
        }
        other => panic!("unexpected request {:?}", other),
    }
    let engine = next(engine, written());
    match engine.request() {
        PurchaseAction::LockLedger { key: asked } => assert_eq!(asked, key(1)),
        other => panic!("unexpected request {:?}", other),
    }
    let engine = next(engine, StoreReply::Found);
    match engine.request() {
        PurchaseAction::AddToLedger { key: asked, amount } => {
            assert_eq!(asked, key(1));
            assert!(amount.same_value(money(1050, 2)));
        }
        other => panic!("unexpected request {:?}", other),
    }
    let engine = next(engine, written());
    match engine.request() {
        PurchaseAction::LockLedger { key: asked } => assert_eq!(asked, key(2)),
        other => panic!("unexpected request {:?}", other),
    }
    let engine = next(engine, StoreReply::Missing);
    match engine.request() {
        PurchaseAction::InsertLedger { key: asked, amount } => {
            assert_eq!(asked, key(2));
            assert!(amount.same_value(money(8, 0)));
        }
        other => panic!("unexpected request {:?}", other),
    }
    let engine = next(engine, written());
    assert!(matches!(engine.request(), PurchaseAction::Commit));
    assert_eq!(done(engine, StoreReply::Committed), Ok(PurchaseOutcome::Success));
}

#[test]
fn short_stock_ends_the_purchase_at_that_line() {
    let engine = begin(&[(1, 3), (2, 2)]);
    let engine = next(engine, StoreReply::Goods { price: money(350, 2), stock: Some(3) });
    assert_eq!(
        done(engine, StoreReply::Goods { price: money(4, 0), stock: Some(1) }),
        Ok(PurchaseOutcome::InsufficientStock)
    );
}

#[test]
fn missing_goods_row_ends_the_purchase() {
    let engine = begin(&[(1, 3), (2, 2)]);
    let engine = next(engine, StoreReply::Goods { price: money(350, 2), stock: Some(3) });
    assert_eq!(
        done(engine, StoreReply::Missing),
        Err(PurchaseError::GoodsNotFound { goods_id: 2 })
    );
}

#[test]
fn missing_customer_row_ends_the_purchase() {
    assert_eq!(
        done(priced_engine(), StoreReply::Missing),
        Err(PurchaseError::CustomerNotFound { user_id: 7 })
    );
}

#[test]
fn balance_below_the_total_ends_the_purchase() {
    assert_eq!(
        done(priced_engine(), StoreReply::Customer { balance: money(1849, 2) }),
        Ok(PurchaseOutcome::InsufficientBalance)
    );
}

#[test]
fn a_write_that_changes_no_row_is_a_conflict() {
    let engine = next(priced_engine(), StoreReply::Customer { balance: money(20, 0) });
    assert_eq!(
        done(engine, StoreReply::Written { rows: 0 }),
        Err(PurchaseError::ConcurrentModification)
    );
    let engine = next(priced_engine(), StoreReply::Customer { balance: money(20, 0) });
    let engine = next(engine, written());
    let engine = next(engine, written());
    assert_eq!(
        done(engine, StoreReply::Written { rows: 2 }),
        Err(PurchaseError::ConcurrentModification)
    );
}

#[test]
fn a_failure_of_the_store_ends_the_purchase_wherever_it_comes() {
    let replies = [
        StoreReply::Goods { price: money(350, 2), stock: Some(3) },
        StoreReply::Goods { price: money(4, 0), stock: Some(5) },
        StoreReply::Customer { balance: money(20, 0) },
        written(),
        written(),
        written(),
        StoreReply::Found,
        written(),
        StoreReply::Missing,
        written(),
        StoreReply::Committed,
    ];
    for failing in 0..replies.len() {
        let mut engine = begin(&[(1, 3), (2, 2)]);
        for reply in replies.iter().take(failing) {
            engine = next(engine, *reply);
        }
        assert_eq!(done(engine, StoreReply::Failed), Err(PurchaseError::StoreFailure));
    }
}

#[test]
fn an_answer_to_another_question_ends_the_purchase() {
    let engine = begin(&[(1, 3)]);
    assert_eq!(done(engine, StoreReply::Committed), Err(PurchaseError::UnexpectedReply));
    assert_eq!(done(priced_engine(), written()), Err(PurchaseError::UnexpectedReply));
    let engine = next(priced_engine(), StoreReply::Customer { balance: money(20, 0) });
    assert_eq!(done(engine, StoreReply::Found), Err(PurchaseError::UnexpectedReply));
}

#[test]
fn a_cart_that_cannot_be_priced_ends_after_the_last_lock() {
    let engine = begin(&[(1, 2)]);
    assert_eq!(
        done(engine, StoreReply::Goods { price: money(1i128 << 95, 0), stock: Some(2) }),
        Err(PurchaseError::AmountOverflow)
    );
}
