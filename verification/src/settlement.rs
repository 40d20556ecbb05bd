use crate::amount::Amount;
use crate::cart::{checked, goods_at, CartError, CartLine};
use crate::models::{Month, PurchaseItem};
use crate::pricing::{priced, Priced};
use crate::purchase::{
    on_hand, transition, EngineState, LedgerKey, Phase, PurchaseError, PurchaseOutcome,
    PurchaseResult, StoreReply, Transition,
};
use crate::store::{debited, GoodsRow, StoreState};
use crate::table::lookup;
use vstd::prelude::*;

verus! {

/// The goods item of the line exists and has as many units in stock as the line wants.
pub open spec fn available(goods: Map<i32, GoodsRow>, line: CartLine) -> bool {
    goods.contains_key(line.goods_id) && on_hand(goods[line.goods_id].stock) >= line.quantity
}

/// The first `n` lines are all available.
pub open spec fn all_available(goods: Map<i32, GoodsRow>, lines: Seq<CartLine>, n: int) -> bool {
    forall|j: int| 0 <= j < n ==> available(goods, #[trigger] lines[j])
}

/// Line `k` is the first that is not available.
pub open spec fn first_unavailable(goods: Map<i32, GoodsRow>, lines: Seq<CartLine>, k: int) -> bool {
    0 <= k < lines.len() && !available(goods, lines[k]) && all_available(goods, lines, k)
}

/// The unit price of each line's goods item.
pub open spec fn prices_of(goods: Map<i32, GoodsRow>, lines: Seq<CartLine>) -> Seq<Amount> {
    Seq::new(lines.len(), |i: int| goods[lines[i].goods_id].price)
}

/// The goods after the first `n` lines took their units from the stock.
pub open spec fn debit_stock(goods: Map<i32, GoodsRow>, lines: Seq<CartLine>, n: nat) -> Map<
    i32,
    GoodsRow,
>
    decreases n,
{
    if n == 0 {
        goods
    } else {
        let before = debit_stock(goods, lines, (n - 1) as nat);
        let line = lines[n - 1];
        before.insert(line.goods_id, debited(before[line.goods_id], line.quantity as i32))
    }
}

/// The ledger with `amount` booked under `key`: added to the entry that is there,
/// or put down as a new entry. There is none where the sum cannot be computed exactly.
pub open spec fn booked(ledger: Map<LedgerKey, Amount>, key: LedgerKey, amount: Amount) -> Option<
    Map<LedgerKey, Amount>,
> {
    match lookup(ledger, key) {
        Some(before) => match before.sum(amount) {
            Some(more) => Some(ledger.insert(key, more)),
            None => None,
        },
        None => Some(ledger.insert(key, amount)),
    }
}

/// The ledger after the subtotals of the first `n` lines were booked for the
/// account and the month.
pub open spec fn book(
    ledger: Map<LedgerKey, Amount>,
    user_id: i64,
    month: Month,
    lines: Seq<CartLine>,
    subtotals: Seq<Amount>,
    n: nat,
) -> Option<Map<LedgerKey, Amount>>
    decreases n,
{
    if n == 0 {
        Some(ledger)
    } else {
        match book(ledger, user_id, month, lines, subtotals, (n - 1) as nat) {
            Some(before) => booked(
                before,
                LedgerKey { user_id, month, goods_id: lines[n - 1].goods_id },
                subtotals[n - 1],
            ),
            None => None,
        }
    }
}

/// The store after a purchase went through: every line's units taken from the
/// stock, the total taken from the customer's balance, every subtotal booked to
/// the ledger. There is none where the store cannot compute a new amount exactly.
pub open spec fn settled(
    s: StoreState,
    user_id: i64,
    month: Month,
    lines: Seq<CartLine>,
    p: Priced,
) -> Option<StoreState> {
    match (
        s.customers[user_id].difference(p.total),
        book(s.ledger, user_id, month, lines, p.subtotals, lines.len()),
    ) {
        (Some(rest), Some(ledger)) => Some(
            StoreState {
                goods: debit_stock(s.goods, lines, lines.len()),
                customers: s.customers.insert(user_id, rest),
                ledger,
                ..s
            },
        ),
        _ => None,
    }
}

/// What becomes of a purchase of the given lines, and of the store.
///
/// The first line that is not available decides: the purchase is given up where
/// its goods item does not exist and ends with `InsufficientStock` where it does.
/// With all lines available the cart is priced, the customer account looked up
/// and the balance held against the total. Only a purchase that passes all of
/// this changes the store, and then in full; every other leaves it as it was.
pub open spec fn verdict(s: StoreState, user_id: i64, month: Month, lines: Seq<CartLine>) -> (
    StoreState,
    PurchaseResult,
) {
    if exists|k: int| first_unavailable(s.goods, lines, k) {
        let k = choose|k: int| first_unavailable(s.goods, lines, k);
        if s.goods.contains_key(lines[k].goods_id) {
            (s, Ok(PurchaseOutcome::InsufficientStock))
        } else {
            (s, Err(PurchaseError::GoodsNotFound { goods_id: lines[k].goods_id }))
        }
    } else {
        match priced(lines, prices_of(s.goods, lines)) {
            Some(p) => match lookup(s.customers, user_id) {
                Some(balance) => if balance@ < p.total@ {
                    (s, Ok(PurchaseOutcome::InsufficientBalance))
                } else {
                    match settled(s, user_id, month, lines, p) {
                        Some(after) => (after, Ok(PurchaseOutcome::Success)),
                        None => (s, Err(PurchaseError::StoreFailure)),
                    }
                },
                None => (s, Err(PurchaseError::CustomerNotFound { user_id })),
            },
            None => (s, Err(PurchaseError::AmountOverflow)),
        }
    }
}

/// What becomes of a purchase request, and of the store: a cart that does not pass
/// the checks leaves the store alone, any other is merged by goods and served.
pub open spec fn purchase(s: StoreState, user_id: i64, month: Month, items: Seq<PurchaseItem>) -> (
    StoreState,
    Result<PurchaseResult, CartError>,
) {
    match checked(items) {
        Ok(lines) => {
            let (after, result) = verdict(s, user_id, month, lines);
            (after, Ok(result))
        },
        Err(e) => (s, Err(e)),
    }
}

/// Debiting the first `n` lines leaves alone every goods item that none of them names.
pub proof fn lemma_debit_stock_frame(
    goods: Map<i32, GoodsRow>,
    lines: Seq<CartLine>,
    n: nat,
    goods_id: i32,
)
    requires
        n <= lines.len(),
        forall|j: int| 0 <= j < n ==> goods_at(lines, j) != goods_id,
    ensures
        debit_stock(goods, lines, n).contains_key(goods_id) == goods.contains_key(goods_id),
        debit_stock(goods, lines, n)[goods_id] == goods[goods_id],
    decreases n,
{
    if n > 0 {
        lemma_debit_stock_frame(goods, lines, (n - 1) as nat, goods_id);
        assert(goods_at(lines, n - 1) != goods_id);
    }
}

/// Once booking has failed on the first `n` lines it fails on any more.
pub proof fn lemma_book_fails(
    ledger: Map<LedgerKey, Amount>,
    user_id: i64,
    month: Month,
    lines: Seq<CartLine>,
    subtotals: Seq<Amount>,
    n: nat,
    m: nat,
)
    requires
        n <= m,
        book(ledger, user_id, month, lines, subtotals, n) is None,
    ensures
        book(ledger, user_id, month, lines, subtotals, m) is None,
    decreases m,
{
    if n < m {
        lemma_book_fails(ledger, user_id, month, lines, subtotals, n, (m - 1) as nat);
    }
}

/// All checks of a purchase have passed against the store as it was found.
pub open spec fn cleared(e: EngineState, s: StoreState) -> bool {
    &&& all_available(s.goods, e.lines, e.lines.len() as int)
    &&& e.prices == prices_of(s.goods, e.lines)
    &&& s.customers.contains_key(e.user_id)
    &&& s.customers[e.user_id]@ >= e.total@
}

/// The store as the transaction sees it once stock and balance are debited and
/// the first `n` subtotals booked.
pub open spec fn paid(e: EngineState, s: StoreState, n: nat) -> Option<StoreState> {
    match (
        s.customers[e.user_id].difference(e.total),
        book(s.ledger, e.user_id, e.month, e.lines, e.subtotals, n),
    ) {
        (Some(rest), Some(ledger)) => Some(
            StoreState {
                goods: debit_stock(s.goods, e.lines, e.lines.len()),
                customers: s.customers.insert(e.user_id, rest),
                ledger,
                ..s
            },
        ),
        _ => None,
    }
}

/// A purchase in state `e` is on the way that [`verdict`] describes: `s` is the
/// store as the transaction found it, `w` the store as the transaction sees it now.
pub open spec fn on_track(e: EngineState, w: StoreState, s: StoreState) -> bool {
    &&& e.wf()
    &&& match e.phase {
        Phase::LockingGoods => {
            &&& w == s
            &&& all_available(s.goods, e.lines, e.cursor)
            &&& forall|j: int|
                0 <= j < e.cursor ==> #[trigger] e.prices[j] == s.goods[e.lines[j].goods_id].price
        },
        Phase::LockingCustomer => {
            &&& w == s
            &&& all_available(s.goods, e.lines, e.lines.len() as int)
            &&& e.prices == prices_of(s.goods, e.lines)
        },
        Phase::DebitingStock => {
            &&& cleared(e, s)
            &&& w == StoreState { goods: debit_stock(s.goods, e.lines, e.cursor as nat), ..s }
        },
        Phase::DebitingBalance => {
            &&& cleared(e, s)
            &&& w == StoreState { goods: debit_stock(s.goods, e.lines, e.lines.len()), ..s }
        },
        Phase::LockingLedger => {
            &&& cleared(e, s)
            &&& paid(e, s, e.cursor as nat) == Some(w)
        },
        Phase::AddingToLedger => {
            &&& cleared(e, s)
            &&& paid(e, s, e.cursor as nat) == Some(w)
            &&& w.ledger.contains_key(e.key())
        },
        Phase::InsertingIntoLedger => {
            &&& cleared(e, s)
            &&& paid(e, s, e.cursor as nat) == Some(w)
            &&& !w.ledger.contains_key(e.key())
        },
        Phase::Committing => {
            &&& cleared(e, s)
            &&& paid(e, s, e.lines.len()) == Some(w)
        },
    }
}

/// What one exchange between engine and store leads to, where the store answers
/// from `w`: the next state and the store after it, or the end of the purchase
/// with the store that is then in force: `w` after a success, which is
/// committed, and `s` after anything else, which is rolled back.
pub enum Exchange {
    Goes { e: EngineState, w: StoreState },
    Ends { store: StoreState, result: PurchaseResult },
}

/// One exchange: the store answers the pending request from `w`, the engine moves on.
pub open spec fn exchange(e: EngineState, w: StoreState, s: StoreState) -> Exchange {
    let (after, reply) = w.answer(e.request());
    match transition(e, reply) {
        Transition::Next(next) => Exchange::Goes { e: next, w: after },
        Transition::Done(result) => Exchange::Ends {
            store: if result == Ok::<PurchaseOutcome, PurchaseError>(PurchaseOutcome::Success) {
                after
            } else {
                s
            },
            result,
        },
    }
}

proof fn lemma_first_unavailable(goods: Map<i32, GoodsRow>, lines: Seq<CartLine>, k: int)
    requires
        first_unavailable(goods, lines, k),
    ensures
        exists|c: int| first_unavailable(goods, lines, c),
        (choose|c: int| first_unavailable(goods, lines, c)) == k,
{
    let c = choose|c: int| first_unavailable(goods, lines, c);
    if c < k {
        assert(available(goods, lines[c]));
    }
    if k < c {
        assert(available(goods, lines[k]));
    }
}

proof fn lemma_none_unavailable(goods: Map<i32, GoodsRow>, lines: Seq<CartLine>)
    requires
        all_available(goods, lines, lines.len() as int),
    ensures
        !exists|c: int| first_unavailable(goods, lines, c),
{
    assert forall|c: int| !first_unavailable(goods, lines, c) by {
        if 0 <= c < lines.len() {
            assert(available(goods, lines[c]));
        }
    }
}

proof fn lemma_exchange_locking_goods(e: EngineState, w: StoreState, s: StoreState)
    requires
        on_track(e, w, s),
        e.phase is LockingGoods,
    ensures
        match exchange(e, w, s) {
            Exchange::Goes { e: next, w: after } => on_track(next, after, s),
            Exchange::Ends { store, result } => (store, result) == verdict(
                s,
                e.user_id,
                e.month,
                e.lines,
            ),
        },
{
    let i = e.cursor;
    let line = e.lines[i];
    let (after, reply) = w.answer(e.request());
    assert(after == s);
    if !available(s.goods, line) {
        lemma_first_unavailable(s.goods, e.lines, i);
    } else {
        let price = s.goods[line.goods_id].price;
        let prices = e.prices.push(price);
        assert(reply == StoreReply::Goods { price, stock: s.goods[line.goods_id].stock });
        assert forall|j: int| 0 <= j < i + 1 implies available(s.goods, #[trigger] e.lines[j]) by {}
        if i + 1 < e.lines.len() {
            let next = EngineState { cursor: i + 1, prices, ..e };
            assert(transition(e, reply) == Transition::Next(next));
            crate::purchase::lemma_progress(e, reply);
        } else {
            assert(prices =~= prices_of(s.goods, e.lines));
            lemma_none_unavailable(s.goods, e.lines);
            crate::purchase::lemma_progress(e, reply);
        }
    }
}

proof fn lemma_cleared_verdict(e: EngineState, s: StoreState)
    requires
        e.wf(),
        !(e.phase is LockingGoods),
        all_available(s.goods, e.lines, e.lines.len() as int),
        e.prices == prices_of(s.goods, e.lines),
    ensures
        verdict(s, e.user_id, e.month, e.lines) == match lookup(s.customers, e.user_id) {
            Some(balance) => if balance@ < e.total@ {
                (s, Ok::<PurchaseOutcome, PurchaseError>(PurchaseOutcome::InsufficientBalance))
            } else {
                match settled(
                    s,
                    e.user_id,
                    e.month,
                    e.lines,
                    Priced { subtotals: e.subtotals, total: e.total },
                ) {
                    Some(after) => (after, Ok(PurchaseOutcome::Success)),
                    None => (s, Err(PurchaseError::StoreFailure)),
                }
            },
            None => (s, Err(PurchaseError::CustomerNotFound { user_id: e.user_id })),
        },
{
    lemma_none_unavailable(s.goods, e.lines);
}

proof fn lemma_exchange_locking_customer(e: EngineState, w: StoreState, s: StoreState)
    requires
        on_track(e, w, s),
        e.phase is LockingCustomer,
    ensures
        match exchange(e, w, s) {
            Exchange::Goes { e: next, w: after } => on_track(next, after, s),
            Exchange::Ends { store, result } => (store, result) == verdict(
                s,
                e.user_id,
                e.month,
                e.lines,
            ),
        },
{
    lemma_cleared_verdict(e, s);
    let (after, reply) = w.answer(e.request());
    crate::purchase::lemma_progress(e, reply);
    if let Exchange::Goes { e: next, w: after } = exchange(e, w, s) {
        assert(after == StoreState { goods: debit_stock(s.goods, e.lines, 0), ..s });
    }
}

proof fn lemma_exchange_debiting_stock(e: EngineState, w: StoreState, s: StoreState)
    requires
        on_track(e, w, s),
        e.phase is DebitingStock,
    ensures
        match exchange(e, w, s) {
            Exchange::Goes { e: next, w: after } => on_track(next, after, s),
            Exchange::Ends { store, result } => (store, result) == verdict(
                s,
                e.user_id,
                e.month,
                e.lines,
            ),
        },
{
    let i = e.cursor;
    let line = e.lines[i];
    assert forall|j: int| 0 <= j < i implies goods_at(e.lines, j) != line.goods_id by {
        assert(goods_at(e.lines, i) == line.goods_id);
    }
    lemma_debit_stock_frame(s.goods, e.lines, i as nat, line.goods_id);
    assert(available(s.goods, line));
    let (after, reply) = w.answer(e.request());
    assert(reply == StoreReply::Written { rows: 1 });
    crate::purchase::lemma_progress(e, reply);
    assert(after.goods == debit_stock(s.goods, e.lines, (i + 1) as nat));
}

proof fn lemma_exchange_debiting_balance(e: EngineState, w: StoreState, s: StoreState)
    requires
        on_track(e, w, s),
        e.phase is DebitingBalance,
    ensures
        match exchange(e, w, s) {
            Exchange::Goes { e: next, w: after } => on_track(next, after, s),
            Exchange::Ends { store, result } => (store, result) == verdict(
                s,
                e.user_id,
                e.month,
                e.lines,
            ),
        },
{
    lemma_cleared_verdict(e, s);
    let (after, reply) = w.answer(e.request());
    crate::purchase::lemma_progress(e, reply);
}

proof fn lemma_exchange_ledger(e: EngineState, w: StoreState, s: StoreState)
    requires
        on_track(e, w, s),
        e.phase is LockingLedger || e.phase is AddingToLedger || e.phase is InsertingIntoLedger
            || e.phase is Committing,
    ensures
        match exchange(e, w, s) {
            Exchange::Goes { e: next, w: after } => on_track(next, after, s),
            Exchange::Ends { store, result } => (store, result) == verdict(
                s,
                e.user_id,
                e.month,
                e.lines,
            ),
        },
{
    lemma_cleared_verdict(e, s);
    let (after, reply) = w.answer(e.request());
    crate::purchase::lemma_progress(e, reply);
    crate::pricing::lemma_priced(e.lines, e.prices);
    let i = e.cursor;
    if e.phase is AddingToLedger || e.phase is InsertingIntoLedger {
        if reply is Failed {
            lemma_book_fails(
                s.ledger,
                e.user_id,
                e.month,
                e.lines,
                e.subtotals,
                (i + 1) as nat,
                e.lines.len(),
            );
        }
    }
}

/// One exchange between engine and store keeps a purchase on track, and the
/// exchange that ends it ends it as [`verdict`] says.
pub proof fn lemma_exchange(e: EngineState, w: StoreState, s: StoreState)
    requires
        on_track(e, w, s),
    ensures
        match exchange(e, w, s) {
            Exchange::Goes { e: next, w: after } => on_track(next, after, s) && next.remaining()
                < e.remaining() && next.lines == e.lines && next.user_id == e.user_id && next.month
                == e.month,
            Exchange::Ends { store, result } => (store, result) == verdict(
                s,
                e.user_id,
                e.month,
                e.lines,
            ),
        },
{
    let (after, reply) = w.answer(e.request());
    match e.phase {
        Phase::LockingGoods => {
            lemma_exchange_locking_goods(e, w, s);
        },
        Phase::LockingCustomer => {
            lemma_exchange_locking_customer(e, w, s);
        },
        Phase::DebitingStock => {
            lemma_exchange_debiting_stock(e, w, s);
        },
        Phase::DebitingBalance => {
            lemma_exchange_debiting_balance(e, w, s);
        },
        _ => {
            lemma_exchange_ledger(e, w, s);
        },
    }
    crate::purchase::lemma_progress(e, reply);
}

} // verus!
