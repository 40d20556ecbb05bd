use crate::models::{AddGoodsData, RechargeBalanceData, UpdateGoodsData, ROLE_CUSTOMER};
use crate::store::WriteResult;
use vstd::prelude::*;

verus! {

/// Why a change to the goods on the shelf was turned away.
#[derive(Clone, Copy, Debug, PartialEq, Eq, Structural)]
pub enum GoodsError {
    EmptyName,
    /// A unit price has to be greater than zero.
    NonPositivePrice,
    /// A stock cannot be less than zero.
    NegativeStock,
    /// Another goods item has the name.
    NameTaken,
    /// No goods item of that number, or nothing changed.
    NotFound { goods_id: i32 },
    /// The store reported a failure.
    StoreFailure,
}

/// The stock that a new goods item starts with, or what is wrong with its data:
/// the name must not be empty, the price must be greater than zero and the stock
/// must not be less than zero, looked at in that order; a stock that is not given
/// is none.
pub open spec fn new_goods_stock(data: AddGoodsData) -> Result<i32, GoodsError> {
    if data.goods_name@.len() == 0 {
        Err(GoodsError::EmptyName)
    } else if data.price@ <= 0 {
        Err(GoodsError::NonPositivePrice)
    } else if data.stock matches Some(units) && units < 0 {
        Err(GoodsError::NegativeStock)
    } else {
        Ok(
            match data.stock {
                Some(units) => units,
                None => 0,
            },
        )
    }
}

/// Checks the data of a new goods item and gives the stock that it starts with.
pub fn check_new_goods(data: &AddGoodsData) -> (r: Result<i32, GoodsError>)
    ensures
        r == new_goods_stock(*data),
{
    if data.goods_name.as_str().is_empty() {
        Err(GoodsError::EmptyName)
    } else if !data.price.is_positive() {
        Err(GoodsError::NonPositivePrice)
    } else {
        match data.stock {
            Some(units) => {
                if units < 0 {
                    Err(GoodsError::NegativeStock)
                } else {
                    Ok(units)
                }
            },
            None => Ok(0),
        }
    }
}

/// A goods item that passes the checks starts with a stock that is not below zero.
pub proof fn new_goods_have_stock(data: AddGoodsData)
    ensures
        new_goods_stock(data) matches Ok(units) ==> units >= 0 && data.price@ > 0
            && data.goods_name@.len() > 0,
{
}

/// How adding a goods item ends once the store has answered the insert.
pub open spec fn add_goods_end(write: WriteResult) -> Result<(), GoodsError> {
    match write {
        WriteResult::Written { rows } => Ok(()),
        WriteResult::UniqueViolation => Err(GoodsError::NameTaken),
        WriteResult::Failed => Err(GoodsError::StoreFailure),
    }
}

/// Says how adding a goods item ended, from what the store answered to the insert.
pub fn finish_add_goods(write: WriteResult) -> (r: Result<(), GoodsError>)
    ensures
        r == add_goods_end(write),
{
    match write {
        WriteResult::Written { rows } => Ok(()),
        WriteResult::UniqueViolation => Err(GoodsError::NameTaken),
        WriteResult::Failed => Err(GoodsError::StoreFailure),
    }
}

/// What an update of a goods item writes, `None` where nothing was asked for, or
/// what is wrong with its data: the stock is looked at first, then the price.
pub open spec fn goods_patch(data: UpdateGoodsData) -> Result<Option<UpdateGoodsData>, GoodsError> {
    if data.stock matches Some(units) && units < 0 {
        Err(GoodsError::NegativeStock)
    } else if data.price matches Some(price) && price@ <= 0 {
        Err(GoodsError::NonPositivePrice)
    } else if data.stock is None && data.price is None {
        Ok(None)
    } else {
        Ok(Some(data))
    }
}

/// Checks an update of a goods item.
pub fn plan_goods_update(data: UpdateGoodsData) -> (r: Result<Option<UpdateGoodsData>, GoodsError>)
    ensures
        r == goods_patch(data),
{
    match data.stock {
        Some(units) => {
            if units < 0 {
                return Err(GoodsError::NegativeStock);
            }
        },
        None => {},
    }
    match data.price {
        Some(price) => {
            if !price.is_positive() {
                return Err(GoodsError::NonPositivePrice);
            }
        },
        None => {},
    }
    if data.stock.is_none() && data.price.is_none() {
        Ok(None)
    } else {
        Ok(Some(data))
    }
}

/// How an update of a goods item ends once the store has answered the write.
pub open spec fn goods_update_end(goods_id: i32, write: WriteResult) -> Result<(), GoodsError> {
    match write {
        WriteResult::Written { rows } => if rows > 0 {
            Ok(())
        } else {
            Err(GoodsError::NotFound { goods_id })
        },
        _ => Err(GoodsError::StoreFailure),
    }
}

/// Says how an update of a goods item ended, from what the store answered to the write.
pub fn finish_goods_update(goods_id: i32, write: WriteResult) -> (r: Result<(), GoodsError>)
    ensures
        r == goods_update_end(goods_id, write),
{
    match write {
        WriteResult::Written { rows } => {
            if rows > 0 {
                Ok(())
            } else {
                Err(GoodsError::NotFound { goods_id })
            }
        },
        _ => Err(GoodsError::StoreFailure),
    }
}

/// Why a recharge was turned away.
#[derive(Clone, Copy, Debug, PartialEq, Eq, Structural)]
pub enum RechargeError {
    /// The amount has to be greater than zero.
    NonPositiveAmount,
    AccountNotFound { user_id: i64 },
    NotACustomer { user_id: i64 },
    /// The write changed no row.
    NothingUpdated { user_id: i64 },
    /// The store reported a failure.
    StoreFailure,
}

/// The role that a role column stands for: an empty column counts as customer.
pub open spec fn role_of(user_type: Option<i8>) -> i8 {
    match user_type {
        Some(role) => role,
        None => ROLE_CUSTOMER,
    }
}

/// The role that a role column stands for.
pub fn role_or_customer(user_type: Option<i8>) -> (r: i8)
    ensures
        r == role_of(user_type),
{
    match user_type {
        Some(role) => role,
        None => ROLE_CUSTOMER,
    }
}

/// Whether the amount of a recharge is in order.
pub open spec fn recharge_fault(data: RechargeBalanceData) -> Option<RechargeError> {
    if data.amount@ <= 0 {
        Some(RechargeError::NonPositiveAmount)
    } else {
        None
    }
}

/// Checks the amount of a recharge before anything is asked of the store.
pub fn check_recharge(data: RechargeBalanceData) -> (r: Option<RechargeError>)
    ensures
        r == recharge_fault(data),
{
    if !data.amount.is_positive() {
        Some(RechargeError::NonPositiveAmount)
    } else {
        None
    }
}

/// Whether the balance may be recharged, from the role column of the account,
/// `None` where the store has no such account: only customers have a balance.
pub open spec fn recharge_clearance(data: RechargeBalanceData, found: Option<Option<i8>>) -> Result<
    (),
    RechargeError,
> {
    match found {
        Some(user_type) => if role_of(user_type) == ROLE_CUSTOMER {
            Ok(())
        } else {
            Err(RechargeError::NotACustomer { user_id: data.user_id })
        },
        None => Err(RechargeError::AccountNotFound { user_id: data.user_id }),
    }
}

/// Says whether the balance may be recharged.
pub fn clear_recharge(data: RechargeBalanceData, found: Option<Option<i8>>) -> (r: Result<
    (),
    RechargeError,
>)
    ensures
        r == recharge_clearance(data, found),
{
    match found {
        Some(user_type) => {
            if role_or_customer(user_type) == ROLE_CUSTOMER {
                Ok(())
            } else {
                Err(RechargeError::NotACustomer { user_id: data.user_id })
            }
        },
        None => Err(RechargeError::AccountNotFound { user_id: data.user_id }),
    }
}

/// How a recharge ends once the store has answered the write.
pub open spec fn recharge_end(data: RechargeBalanceData, write: WriteResult) -> Result<
    (),
    RechargeError,
> {
    match write {
        WriteResult::Written { rows } => if rows > 0 {
            Ok(())
        } else {
            Err(RechargeError::NothingUpdated { user_id: data.user_id })
        },
        _ => Err(RechargeError::StoreFailure),
    }
}

/// Says how a recharge ended, from what the store answered to the write.
pub fn finish_recharge(data: RechargeBalanceData, write: WriteResult) -> (r: Result<
    (),
    RechargeError,
>)
    ensures
        r == recharge_end(data, write),
{
    match write {
        WriteResult::Written { rows } => {
            if rows > 0 {
                Ok(())
            } else {
                Err(RechargeError::NothingUpdated { user_id: data.user_id })
            }
        },
        _ => Err(RechargeError::StoreFailure),
    }
}

} // verus!
