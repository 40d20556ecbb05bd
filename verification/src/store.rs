use crate::amount::Amount;
use crate::lost_items::{claimed, ClaimWrite, LostItemRow};
use crate::messages::{MessageRow, ReadWrite};
use crate::models::{Month, STATUS_READ, STATUS_UNCLAIMED};
use crate::purchase::{LedgerKey, PurchaseAction, StoreReply};
use crate::table::{lookup, Table};
use vstd::prelude::*;

verus! {

/// What the store says to a write.
#[derive(Clone, Copy, Debug, PartialEq, Eq, Structural)]
pub enum WriteResult {
    /// The write went through and changed this many rows.
    Written { rows: u64 },
    /// The store refused the write because a value that has to be unique is taken.
    UniqueViolation,
    /// The store could not do the write for another reason.
    Failed,
}

/// What the store keeps of a goods item, as far as a purchase reads it.
#[derive(Clone, Copy, Debug)]
pub struct GoodsRow {
    pub price: Amount,
    /// The units in stock; an empty column counts as none.
    pub stock: Option<i32>,
}

/// What a store holds: goods by their number, the balances of the customer
/// accounts by account number, the ledger, lost items and messages by their numbers.
pub struct StoreState {
    pub goods: Map<i32, GoodsRow>,
    pub customers: Map<i64, Amount>,
    pub ledger: Map<LedgerKey, Amount>,
    pub lost_items: Map<i64, LostItemRow>,
    pub messages: Map<i64, MessageRow>,
}

/// A goods row with `quantity` units taken from its stock. Where the stock column is
/// empty it stays empty.
pub open spec fn debited(row: GoodsRow, quantity: i32) -> GoodsRow {
    match row.stock {
        Some(units) => GoodsRow { stock: Some((units - quantity) as i32), ..row },
        None => row,
    }
}

/// Whether taking `quantity` units leaves a number that the stock column can hold.
pub open spec fn can_debit(row: GoodsRow, quantity: i32) -> bool {
    match row.stock {
        Some(units) => i32::MIN <= units - quantity <= i32::MAX,
        None => true,
    }
}

impl StoreState {
    /// A store that holds nothing.
    pub open spec fn empty() -> StoreState {
        StoreState {
            goods: Map::empty(),
            customers: Map::empty(),
            ledger: Map::empty(),
            lost_items: Map::empty(),
            messages: Map::empty(),
        }
    }

    /// What a claim does to the store, and how many rows it changes: the item
    /// becomes claimed, with claimant and day, if it exists and is unclaimed at
    /// the moment of the write; otherwise nothing changes.
    pub open spec fn claim(self, write: ClaimWrite) -> (StoreState, u64) {
        match lookup(self.lost_items, write.item_id) {
            Some(row) => if row.status == STATUS_UNCLAIMED {
                (
                    StoreState {
                        lost_items: self.lost_items.insert(write.item_id, claimed(write)),
                        ..self
                    },
                    1,
                )
            } else {
                (self, 0)
            },
            None => (self, 0),
        }
    }

    /// What marking a message read does to the store, and how many rows it
    /// changes: the message becomes read if it exists and is addressed to the
    /// account named in the write; otherwise nothing changes.
    pub open spec fn mark_read(self, write: ReadWrite) -> (StoreState, u64) {
        match lookup(self.messages, write.message_id) {
            Some(row) => if row.receiver_id == write.receiver_id {
                (
                    StoreState {
                        messages: self.messages.insert(
                            write.message_id,
                            MessageRow { read_status: STATUS_READ, ..row },
                        ),
                        ..self
                    },
                    1,
                )
            } else {
                (self, 0)
            },
            None => (self, 0),
        }
    }

    /// What the store does on a request and what it answers. A read changes
    /// nothing. A write changes the one row that it names and reports one row
    /// changed; where there is no such row it changes nothing and reports none.
    /// The store fails, changing nothing, where a new stock would not fit its
    /// column, where a new amount cannot be computed exactly, and where a ledger
    /// entry to be created exists already.
    pub open spec fn answer(self, action: PurchaseAction) -> (StoreState, StoreReply) {
        match action {
            PurchaseAction::LockGoods { goods_id } => (
                self,
                match lookup(self.goods, goods_id) {
                    Some(row) => StoreReply::Goods { price: row.price, stock: row.stock },
                    None => StoreReply::Missing,
                },
            ),
            PurchaseAction::LockCustomer { user_id } => (
                self,
                match lookup(self.customers, user_id) {
                    Some(balance) => StoreReply::Customer { balance },
                    None => StoreReply::Missing,
                },
            ),
            PurchaseAction::DebitStock { goods_id, quantity } => match lookup(
                self.goods,
                goods_id,
            ) {
                Some(row) => if can_debit(row, quantity) {
                    (
                        StoreState {
                            goods: self.goods.insert(goods_id, debited(row, quantity)),
                            ..self
                        },
                        StoreReply::Written { rows: 1 },
                    )
                } else {
                    (self, StoreReply::Failed)
                },
                None => (self, StoreReply::Written { rows: 0 }),
            },
            PurchaseAction::DebitBalance { user_id, amount } => match lookup(
                self.customers,
                user_id,
            ) {
                Some(balance) => match balance.difference(amount) {
                    Some(rest) => (
                        StoreState { customers: self.customers.insert(user_id, rest), ..self },
                        StoreReply::Written { rows: 1 },
                    ),
                    None => (self, StoreReply::Failed),
                },
                None => (self, StoreReply::Written { rows: 0 }),
            },
            PurchaseAction::LockLedger { key } => (
                self,
                if self.ledger.contains_key(key) {
                    StoreReply::Found
                } else {
                    StoreReply::Missing
                },
            ),
            PurchaseAction::AddToLedger { key, amount } => match lookup(self.ledger, key) {
                Some(booked) => match booked.sum(amount) {
                    Some(more) => (
                        StoreState { ledger: self.ledger.insert(key, more), ..self },
                        StoreReply::Written { rows: 1 },
                    ),
                    None => (self, StoreReply::Failed),
                },
                None => (self, StoreReply::Written { rows: 0 }),
            },
            PurchaseAction::InsertLedger { key, amount } => if self.ledger.contains_key(key) {
                (self, StoreReply::Failed)
            } else {
                (
                    StoreState { ledger: self.ledger.insert(key, amount), ..self },
                    StoreReply::Written { rows: 1 },
                )
            },
            PurchaseAction::Commit => (self, StoreReply::Committed),
        }
    }
}

/// A store in memory that answers the requests of a purchase as a relational store
/// would, one caller at a time.
pub struct MemoryStore {
    goods: Table<i32, GoodsRow>,
    customers: Table<i64, Amount>,
    ledger: Table<LedgerKey, Amount>,
    lost_items: Table<i64, LostItemRow>,
    messages: Table<i64, MessageRow>,
}

impl View for MemoryStore {
    type V = StoreState;

    closed spec fn view(&self) -> StoreState {
        StoreState {
            goods: self.goods@,
            customers: self.customers@,
            ledger: self.ledger@,
            lost_items: self.lost_items@,
            messages: self.messages@,
        }
    }
}

impl MemoryStore {
    /// A store that holds nothing.
    pub fn new() -> (r: Self)
        ensures
            r@ == StoreState::empty(),
    {
        MemoryStore {
            goods: Table::new(),
            customers: Table::new(),
            ledger: Table::new(),
            lost_items: Table::new(),
            messages: Table::new(),
        }
    }

    /// Puts a goods item on the shelf, in place of the one of that number if there
    /// is one.
    pub fn put_goods(&mut self, goods_id: i32, price: Amount, stock: Option<i32>)
        ensures
            final(self)@ == (StoreState {
                goods: old(self)@.goods.insert(goods_id, GoodsRow { price, stock }),
                ..old(self)@
            }),
    {
        self.goods.put(goods_id, GoodsRow { price, stock });
    }

    /// Opens a customer account with the given balance, in place of the one of that
    /// number if there is one.
    pub fn put_customer(&mut self, user_id: i64, balance: Amount)
        ensures
            final(self)@ == (StoreState {
                customers: old(self)@.customers.insert(user_id, balance),
                ..old(self)@
            }),
    {
        self.customers.put(user_id, balance);
    }

    /// The goods item of this number, if there is one.
    pub fn goods(&self, goods_id: i32) -> (r: Option<GoodsRow>)
        ensures
            r == lookup(self@.goods, goods_id),
    {
        self.goods.get(&goods_id)
    }

    /// The balance of the customer account of this number, if there is one.
    pub fn balance(&self, user_id: i64) -> (r: Option<Amount>)
        ensures
            r == lookup(self@.customers, user_id),
    {
        self.customers.get(&user_id)
    }

    /// The amount booked under a ledger key, if there is an entry.
    pub fn booked(&self, user_id: i64, month: Month, goods_id: i32) -> (r: Option<Amount>)
        ensures
            r == lookup(self@.ledger, LedgerKey { user_id, month, goods_id }),
    {
        self.ledger.get(&LedgerKey { user_id, month, goods_id })
    }

    /// A copy of the store: what a transaction works on until it is committed.
    pub fn duplicate(&self) -> (r: Self)
        ensures
            r@ == self@,
    {
        MemoryStore {
            goods: self.goods.duplicate(),
            customers: self.customers.duplicate(),
            ledger: self.ledger.duplicate(),
            lost_items: self.lost_items.duplicate(),
            messages: self.messages.duplicate(),
        }
    }

    /// Does what a purchase asks and answers it.
    pub fn perform(&mut self, action: PurchaseAction) -> (r: StoreReply)
        ensures
            (final(self)@, r) == old(self)@.answer(action),
    {
        match action {
            PurchaseAction::LockGoods { goods_id } => match self.goods.get(&goods_id) {
                Some(row) => StoreReply::Goods { price: row.price, stock: row.stock },
                None => StoreReply::Missing,
            },
            PurchaseAction::LockCustomer { user_id } => match self.customers.get(&user_id) {
                Some(balance) => StoreReply::Customer { balance },
                None => StoreReply::Missing,
            },
            PurchaseAction::DebitStock { goods_id, quantity } => match self.goods.get(&goods_id) {
                Some(row) => match row.stock {
                    Some(units) => match units.checked_sub(quantity) {
                        Some(rest) => {
                            self.goods.put(goods_id, GoodsRow { price: row.price, stock: Some(rest) });
                            StoreReply::Written { rows: 1 }
                        },
                        None => StoreReply::Failed,
                    },
                    None => {
                        self.goods.put(goods_id, row);
                        StoreReply::Written { rows: 1 }
                    },
                },
                None => StoreReply::Written { rows: 0 },
            },
            PurchaseAction::DebitBalance { user_id, amount } => match self.customers.get(
                &user_id,
            ) {
                Some(balance) => match balance.checked_sub(amount) {
                    Some(rest) => {
                        self.customers.put(user_id, rest);
                        StoreReply::Written { rows: 1 }
                    },
                    None => StoreReply::Failed,
                },
                None => StoreReply::Written { rows: 0 },
            },
            PurchaseAction::LockLedger { key } => if self.ledger.contains(&key) {
                StoreReply::Found
            } else {
                StoreReply::Missing
            },
            PurchaseAction::AddToLedger { key, amount } => match self.ledger.get(&key) {
                Some(booked) => match booked.checked_add(amount) {
                    Some(more) => {
                        self.ledger.put(key, more);
                        StoreReply::Written { rows: 1 }
                    },
                    None => StoreReply::Failed,
                },
                None => StoreReply::Written { rows: 0 },
            },
            PurchaseAction::InsertLedger { key, amount } => if self.ledger.contains(&key) {
                StoreReply::Failed
            } else {
                self.ledger.put(key, amount);
                StoreReply::Written { rows: 1 }
            },
            PurchaseAction::Commit => StoreReply::Committed,
        }
    }

    /// Records a lost item, in place of the one of that number if there is one.
    pub fn put_lost_item(&mut self, item_id: i64, row: LostItemRow)
        ensures
            final(self)@ == (StoreState {
                lost_items: old(self)@.lost_items.insert(item_id, row),
                ..old(self)@
            }),
    {
        self.lost_items.put(item_id, row);
    }

    /// Records a message, in place of the one of that number if there is one.
    pub fn put_message(&mut self, message_id: i64, row: MessageRow)
        ensures
            final(self)@ == (StoreState {
                messages: old(self)@.messages.insert(message_id, row),
                ..old(self)@
            }),
    {
        self.messages.put(message_id, row);
    }

    /// The lost item of this number, if there is one.
    pub fn lost_item(&self, item_id: i64) -> (r: Option<LostItemRow>)
        ensures
            r == lookup(self@.lost_items, item_id),
    {
        self.lost_items.get(&item_id)
    }

    /// The message of this number, if there is one.
    pub fn message(&self, message_id: i64) -> (r: Option<MessageRow>)
        ensures
            r == lookup(self@.messages, message_id),
    {
        self.messages.get(&message_id)
    }

    /// Writes a claim, on the condition that the item is still unclaimed, and
    /// says how many rows changed.
    pub fn write_claim(&mut self, write: ClaimWrite) -> (rows: u64)
        ensures
            (final(self)@, rows) == old(self)@.claim(write),
    {
        match self.lost_items.get(&write.item_id) {
            Some(row) => {
                if row.status == STATUS_UNCLAIMED {
                    self.lost_items.put(
                        write.item_id,
                        LostItemRow {
                            status: crate::models::STATUS_CLAIMED,
                            claim_user_id: Some(write.claim_user_id),
                            claim_time: Some(write.claim_time),
                        },
                    );
                    1
                } else {
                    0
                }
            },
            None => 0,
        }
    }

    /// Marks a message read, on the condition that it is addressed to the account
    /// named in the write, and says how many rows changed.
    pub fn write_read(&mut self, write: ReadWrite) -> (rows: u64)
        ensures
            (final(self)@, rows) == old(self)@.mark_read(write),
    {
        match self.messages.get(&write.message_id) {
            Some(row) => {
                if row.receiver_id == write.receiver_id {
                    self.messages.put(
                        write.message_id,
                        MessageRow { receiver_id: row.receiver_id, read_status: STATUS_READ },
                    );
                    1
                } else {
                    0
                }
            },
            None => 0,
        }
    }
}

} // verus!
