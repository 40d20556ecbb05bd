use crate::cart::{checked, CartError, CartLine};
use crate::lost_items::{claim, decide_claim, finish_claim, ClaimResult, ClaimStep};
use crate::messages::{decide_read, finish_read, mark_read, ReadResult, ReadStep};
use crate::models::{ClaimLostItemData, Date, MarkReadData, Month, PurchaseGoodsData};
use crate::purchase::{PurchaseEngine, PurchaseOutcome, PurchaseResult, Step};
use crate::settlement::{lemma_exchange, on_track, purchase};
use crate::store::{MemoryStore, WriteResult};
use vstd::prelude::*;

verus! {

/// Serves a purchase request against a store in memory, in one transaction: the
/// engine asks, the store answers, and what the store has done is kept only if the
/// purchase succeeds.
pub fn purchase_goods(data: PurchaseGoodsData, month: Month, store: &mut MemoryStore) -> (r:
    Result<PurchaseResult, CartError>)
    ensures
        (final(store)@, r) == purchase(old(store)@, data.user_id, month, data.items@),
{
    let mut engine = match PurchaseEngine::begin(&data, month) {
        Ok(engine) => engine,
        Err(e) => {
            return Err(e);
        },
    };
    let mut working = store.duplicate();
    let ghost lines = engine@.lines;
    loop
        invariant
            on_track(engine@, working@, store@),
            engine@.lines == lines,
            engine@.user_id == data.user_id,
            engine@.month == month,
            *store == *old(store),
            checked(data.items@) == Ok::<Seq<CartLine>, CartError>(lines),
        decreases engine@.remaining(),
    {
        let action = engine.request();
        proof {
            lemma_exchange(engine@, working@, store@);
        }
        let reply = working.perform(action);
        match engine.advance(reply) {
            Step::Next(next) => {
                engine = next;
            },
            Step::Done(result) => {
                match result {
                    Ok(PurchaseOutcome::Success) => {
                        *store = working;
                    },
                    _ => {},
                }
                return Ok(result);
            },
        }
    }
}

/// Serves a claim against a store in memory.
pub fn claim_lost_item(data: ClaimLostItemData, today: Date, store: &mut MemoryStore) -> (r:
    ClaimResult)
    ensures
        (final(store)@, r) == claim(old(store)@, data, today),
{
    let status: Option<i8> = match store.lost_item(data.item_id) {
        Some(row) => Some(row.status),
        None => None,
    };
    match decide_claim(data, today, status) {
        ClaimStep::Write(write) => {
            let rows = store.write_claim(write);
            finish_claim(WriteResult::Written { rows })
        },
        ClaimStep::Done(result) => result,
    }
}

/// Marks a message read in a store in memory, on behalf of `current_user_id`.
pub fn mark_message_as_read(data: MarkReadData, current_user_id: i64, store: &mut MemoryStore) -> (r:
    ReadResult)
    ensures
        (final(store)@, r) == mark_read(old(store)@, data, current_user_id),
{
    match decide_read(data, current_user_id, store.message(data.message_id)) {
        ReadStep::Write(write) => {
            let rows = store.write_read(write);
            finish_read(WriteResult::Written { rows })
        },
        ReadStep::Done(result) => result,
    }
}

} // verus!
