// The transactional core of a small venue-management backend.
//
// A purchase turns a cart into changes of stock, balance and a monthly ledger,
// all of them or none. A lost item is claimed once. A message is marked read by
// its receiver. Account and goods data are checked before they reach the store.
//
// The store itself is somebody else's: the rules here say what to ask of it and
// what to make of its answers, and are proved against a store in memory.
//
//   amount      exact decimal amounts
//   models      the data that callers send and receive
//   cart        checking a cart and merging it by goods
//   pricing     subtotals and total of a cart
//   purchase    the purchase engine: requests, replies, transitions
//   table       rows found by their key
//   store       what a store holds and how it answers; a store in memory
//   settlement  what a purchase comes to, and that the engine gets there
//   guarantees  what holds of every purchase
//   isolation   several purchases at once
//   lost_items  reporting and claiming lost items
//   messages    sending messages and marking them read
//   account     registration, login, passwords, account details
//   goods       the shelf, and recharging a balance
//   commands    purchase, claim and mark-read against the store in memory
//   db_config   where the store is found

pub mod account;
pub mod amount;
pub mod cart;
pub mod commands;
pub mod db_config;
pub mod goods;
pub mod guarantees;
pub mod isolation;
pub mod lost_items;
pub mod messages;
pub mod models;
pub mod pricing;
pub mod purchase;
pub mod settlement;
pub mod store;
pub mod table;
