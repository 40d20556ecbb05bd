use crate::amount::Amount;
use vstd::prelude::*;

verus! {

/// A calendar day, as the store records it.
#[derive(Clone, Copy, Debug, PartialEq, Eq, Structural)]
pub struct Date {
    pub year: i32,
    pub month: u32,
    pub day: u32,
}

/// A calendar month: the period of one ledger entry.
#[derive(Clone, Copy, Debug, PartialEq, Eq, Structural)]
pub struct Month {
    pub year: i32,
    pub month: u32,
}

/// The decimal digit for a number from zero to nine.
pub open spec fn digit(n: int) -> char {
    if n == 0 {
        '0'
    } else if n == 1 {
        '1'
    } else if n == 2 {
        '2'
    } else if n == 3 {
        '3'
    } else if n == 4 {
        '4'
    } else if n == 5 {
        '5'
    } else if n == 6 {
        '6'
    } else if n == 7 {
        '7'
    } else if n == 8 {
        '8'
    } else {
        '9'
    }
}

/// A month as the ledger writes it: the year in four digits, a hyphen, the month
/// in two digits.
pub open spec fn month_text(year: int, month: int) -> Seq<char> {
    seq![
        digit(year / 1000),
        digit(year / 100 % 10),
        digit(year / 10 % 10),
        digit(year % 10),
        '-',
        digit(month / 10),
        digit(month % 10),
    ]
}

/// Calls `chrono::NaiveDate::from_ymd_opt` for the first day of the month and
/// `chrono::NaiveDate::format` with `%Y-%m` on it. For one of the twelve months of
/// a year from 0 to 9999 there is such a day, and the text is the year padded with
/// zeros to four digits, a hyphen, and the month padded with a zero to two
/// digits. Of other months and years nothing is said.
#[verifier::external_body]
fn chrono_month_label(year: i32, month: u32) -> (r: Option<String>)
    ensures
        1 <= month <= 12 && 0 <= year <= 9999 ==> r is Some && r->0@ == month_text(
            year as int,
            month as int,
        ),
{
    match chrono::NaiveDate::from_ymd_opt(year, month, 1) {
        Some(day) => Some(day.format("%Y-%m").to_string()),
        None => None,
    }
}

impl Month {
    /// The month is one of the twelve, in a year that is written with four digits.
    pub open spec fn wf(self) -> bool {
        1 <= self.month <= 12 && 0 <= self.year <= 9999
    }

    /// The month as the ledger writes it, `2024-05` for May 2024. There is no text
    /// for a month that is not one of the twelve or whose year does not fit four
    /// digits.
    pub fn label(&self) -> (r: Option<String>)
        ensures
            r is Some <==> self.wf(),
            r matches Some(text) ==> text@ == month_text(self.year as int, self.month as int),
    {
        if 1 <= self.month && self.month <= 12 && 0 <= self.year && self.year <= 9999 {
            chrono_month_label(self.year, self.month)
        } else {
            None
        }
    }
}

impl Date {
    /// The month this day falls in.
    pub fn month_of(&self) -> (r: Month)
        ensures
            r == (Month { year: self.year, month: self.month }),
    {
        Month { year: self.year, month: self.month }
    }
}

/// Administrator accounts carry this role number.
pub const ROLE_ADMIN: i8 = 0;

/// Customer accounts carry this role number.
pub const ROLE_CUSTOMER: i8 = 1;

/// The two genders that an account can record.
pub const GENDER_MALE: i8 = 0;

pub const GENDER_FEMALE: i8 = 1;

/// A lost item is unclaimed until somebody claims it, and claimed ever after.
pub const STATUS_UNCLAIMED: i8 = 0;

pub const STATUS_CLAIMED: i8 = 1;

/// A message is unread until its receiver marks it read, and read ever after.
pub const STATUS_UNREAD: i8 = 0;

pub const STATUS_READ: i8 = 1;

/// An account as callers see it. Only customers have a balance to spend.
#[derive(Clone, Debug)]
pub struct Account {
    pub id: i64,
    pub username: String,
    pub phone: Option<String>,
    pub gender: Option<i8>,
    pub join_time: Option<Date>,
    pub balance: Option<Amount>,
    pub user_type: i8,
}

/// What a new customer registers with.
#[derive(Clone, Debug)]
pub struct RegistrationData {
    pub username: String,
    pub password: String,
    pub phone: Option<String>,
    pub gender: Option<i8>,
}

/// What was spent in one month, all ledger entries of the month together.
#[derive(Clone, Debug)]
pub struct MonthlyConsumptionSummary {
    pub month: String,
    pub total_amount: Amount,
}

/// What was spent on one goods item.
#[derive(Clone, Debug)]
pub struct GoodsConsumptionShare {
    pub goods_name: String,
    pub amount: Amount,
}

/// The account details to change; what is not given stays as it is.
#[derive(Clone, Debug)]
pub struct UpdateUserData {
    pub username: Option<String>,
    pub phone: Option<String>,
    pub gender: Option<i8>,
}

/// A change of password: the current one proves who asks.
#[derive(Clone, Debug)]
pub struct UpdatePasswordData {
    pub current_password: String,
    pub new_password: String,
}

/// A goods item on the shelf.
#[derive(Clone, Debug)]
pub struct Goods {
    pub id: i32,
    pub goods_name: String,
    pub goods_type: Option<String>,
    pub price: Amount,
    pub stock: Option<i32>,
}

/// A goods item to put on the shelf.
#[derive(Clone, Debug)]
pub struct AddGoodsData {
    pub goods_name: String,
    pub goods_type: Option<String>,
    pub price: Amount,
    pub stock: Option<i32>,
}

/// The stock and price to set on a goods item; what is not given stays as it is.
#[derive(Clone, Copy, Debug)]
pub struct UpdateGoodsData {
    pub stock: Option<i32>,
    pub price: Option<Amount>,
}

/// An amount to add to the balance of a customer.
#[derive(Clone, Copy, Debug)]
pub struct RechargeBalanceData {
    pub user_id: i64,
    pub amount: Amount,
}

/// One line of a cart as the caller sent it.
#[derive(Clone, Copy, Debug, PartialEq, Eq, Structural)]
pub struct PurchaseItem {
    pub goods_id: i32,
    pub quantity: i32,
}

/// A purchase request: who buys, and the cart.
#[derive(Clone, Debug)]
pub struct PurchaseGoodsData {
    pub user_id: i64,
    pub items: Vec<PurchaseItem>,
}

/// A lost item as callers see it, with the names of finder and claimant.
#[derive(Clone, Debug)]
pub struct LostItem {
    pub id: i64,
    pub item_name: String,
    pub pick_place: Option<String>,
    pub pick_user_id: Option<i64>,
    pub pick_user_name: Option<String>,
    pub claim_user_id: Option<i64>,
    pub claim_user_name: Option<String>,
    pub pick_time: Option<Date>,
    pub claim_time: Option<Date>,
    pub status: i8,
}

/// A found item to record.
#[derive(Clone, Debug)]
pub struct ReportLostItemData {
    pub item_name: String,
    pub pick_place: Option<String>,
    pub pick_user_id: Option<i64>,
}

/// A claim: which item, and who claims it.
#[derive(Clone, Copy, Debug, PartialEq, Eq, Structural)]
pub struct ClaimLostItemData {
    pub item_id: i64,
    pub claim_user_id: i64,
}

/// A message of the administrator to an account.
#[derive(Clone, Debug)]
pub struct SendMessageData {
    pub sender_id: i64,
    pub receiver_id: i64,
    pub title: Option<String>,
    pub message_content: String,
}

/// A message of a customer to the administrator.
#[derive(Clone, Debug)]
pub struct CusSendMessageData {
    pub sender_id: i64,
    pub title: Option<String>,
    pub message_content: String,
}

/// A message as callers see it, with the names of sender and receiver.
#[derive(Clone, Debug)]
pub struct MessageInfo {
    pub id: i64,
    pub sender_id: i64,
    pub receiver_id: i64,
    pub sender_username: String,
    pub receiver_username: String,
    pub title: Option<String>,
    pub message_content: String,
    pub send_date: Option<Date>,
    pub read_status: i8,
}

/// The message to mark read.
#[derive(Clone, Copy, Debug, PartialEq, Eq, Structural)]
pub struct MarkReadData {
    pub message_id: i64,
}

/// An account by number and name.
#[derive(Clone, Debug)]
pub struct UserBasicInfo {
    pub id: i64,
    pub username: String,
}

} // verus!
