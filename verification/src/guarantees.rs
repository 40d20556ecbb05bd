use crate::amount::Amount;
use crate::cart::{
    capped, checked, counted_in_full, distinct_goods, goods_at, items_total, lemma_all_positive,
    line_of, lines_total, merged, merging_keeps_quantities, merging_keeps_the_total, names_goods,
    positive_quantities, quantity_of, wanted, CartError, CartLine,
};
use crate::models::{Month, PurchaseItem};
use crate::pricing::{cost, lemma_priced, priced};
use crate::purchase::{
    on_hand, transition, EngineState, LedgerKey, PurchaseError, PurchaseOutcome, StoreReply,
    Transition,
};
use crate::settlement::{
    all_available, available, book, debit_stock, first_unavailable, lemma_debit_stock_frame,
    prices_of, purchase, settled, verdict,
};
use crate::store::{debited, GoodsRow, StoreState};
use crate::table::lookup;
use vstd::prelude::*;

verus! {

/// The number that is booked under a key, zero where there is no entry.
pub open spec fn amount_booked(ledger: Map<LedgerKey, Amount>, key: LedgerKey) -> int {
    if ledger.contains_key(key) {
        ledger[key]@
    } else {
        0
    }
}

/// The ledger key of a goods item for an account and a month.
pub open spec fn key_of(user_id: i64, month: Month, goods_id: i32) -> LedgerKey {
    LedgerKey { user_id, month, goods_id }
}

/// The goods items that the lines name are all on the shelf.
pub open spec fn on_shelf(goods: Map<i32, GoodsRow>, lines: Seq<CartLine>, n: int) -> bool {
    forall|j: int| 0 <= j < n ==> goods.contains_key(#[trigger] goods_at(lines, j))
}

proof fn lemma_least_unavailable(goods: Map<i32, GoodsRow>, lines: Seq<CartLine>, k: int) -> (c:
    int)
    requires
        0 <= k < lines.len(),
        !available(goods, lines[k]),
    ensures
        0 <= c <= k,
        first_unavailable(goods, lines, c),
    decreases k,
{
    if all_available(goods, lines, k) {
        k
    } else {
        let j = choose|j: int| 0 <= j < k && !available(goods, #[trigger] lines[j]);
        lemma_least_unavailable(goods, lines, j)
    }
}

/// A purchase with a line that wants more units than its goods item has in stock
/// ends with `InsufficientStock` and leaves stock, balances and ledger as they
/// were, provided the goods of all lines before that one are on the shelf.
pub proof fn short_stock_changes_nothing(
    s: StoreState,
    user_id: i64,
    month: Month,
    lines: Seq<CartLine>,
    k: int,
)
    requires
        0 <= k < lines.len(),
        on_shelf(s.goods, lines, k + 1),
        on_hand(s.goods[lines[k].goods_id].stock) < lines[k].quantity,
    ensures
        verdict(s, user_id, month, lines) == (
            s,
            Ok::<PurchaseOutcome, PurchaseError>(PurchaseOutcome::InsufficientStock),
        ),
{
    let c = lemma_least_unavailable(s.goods, lines, k);
    let d = choose|d: int| first_unavailable(s.goods, lines, d);
    if d < c {
        assert(available(s.goods, lines[d]));
    }
    if c < d {
        assert(available(s.goods, lines[c]));
    }
    assert(s.goods.contains_key(goods_at(lines, c)));
}

/// A purchase whose cart costs more than the customer's balance ends with
/// `InsufficientBalance` and leaves stock, balances and ledger as they were,
/// provided all lines are available, the cost can be computed exactly and the
/// customer account exists.
pub proof fn short_balance_changes_nothing(
    s: StoreState,
    user_id: i64,
    month: Month,
    lines: Seq<CartLine>,
)
    requires
        all_available(s.goods, lines, lines.len() as int),
        priced(lines, prices_of(s.goods, lines)) is Some,
        s.customers.contains_key(user_id),
        s.customers[user_id]@ < cost(lines, prices_of(s.goods, lines), lines.len()),
    ensures
        verdict(s, user_id, month, lines) == (
            s,
            Ok::<PurchaseOutcome, PurchaseError>(PurchaseOutcome::InsufficientBalance),
        ),
{
    assert forall|c: int| !first_unavailable(s.goods, lines, c) by {
        if 0 <= c < lines.len() {
            assert(available(s.goods, lines[c]));
        }
    }
    lemma_priced(lines, prices_of(s.goods, lines));
}

/// Only a purchase that succeeds changes the store.
pub proof fn failure_changes_nothing(s: StoreState, user_id: i64, month: Month, lines: Seq<CartLine>)
    ensures
        verdict(s, user_id, month, lines).1 != Ok::<PurchaseOutcome, PurchaseError>(
            PurchaseOutcome::Success,
        ) ==> verdict(s, user_id, month, lines).0 == s,
{
}

proof fn lemma_debit_stock_line(goods: Map<i32, GoodsRow>, lines: Seq<CartLine>, n: nat, i: int)
    requires
        distinct_goods(lines),
        0 <= i < n <= lines.len(),
    ensures
        debit_stock(goods, lines, n).contains_key(lines[i].goods_id),
        debit_stock(goods, lines, n)[lines[i].goods_id] == debited(
            goods[lines[i].goods_id],
            lines[i].quantity as i32,
        ),
    decreases n,
{
    let g = lines[i].goods_id;
    assert(goods_at(lines, i) == g);
    if i == n - 1 {
        assert forall|j: int| 0 <= j < n - 1 implies goods_at(lines, j) != g by {}
        lemma_debit_stock_frame(goods, lines, (n - 1) as nat, g);
    } else {
        lemma_debit_stock_line(goods, lines, (n - 1) as nat, i);
        assert(goods_at(lines, n - 1) != g);
    }
}

/// Booking the first `n` lines leaves alone every entry that none of them is booked to.
pub proof fn lemma_book_frame(
    ledger: Map<LedgerKey, Amount>,
    user_id: i64,
    month: Month,
    lines: Seq<CartLine>,
    subtotals: Seq<Amount>,
    n: nat,
    key: LedgerKey,
)
    requires
        n <= lines.len(),
        forall|j: int| 0 <= j < n ==> key_of(user_id, month, goods_at(lines, j)) != key,
    ensures
        book(ledger, user_id, month, lines, subtotals, n) matches Some(after) ==> lookup(
            after,
            key,
        ) == lookup(ledger, key),
    decreases n,
{
    if n > 0 {
        lemma_book_frame(ledger, user_id, month, lines, subtotals, (n - 1) as nat, key);
        assert(key_of(user_id, month, goods_at(lines, n - 1)) != key);
    }
}

proof fn lemma_book_line(
    ledger: Map<LedgerKey, Amount>,
    user_id: i64,
    month: Month,
    lines: Seq<CartLine>,
    subtotals: Seq<Amount>,
    n: nat,
    i: int,
)
    requires
        distinct_goods(lines),
        0 <= i < n <= lines.len(),
    ensures
        book(ledger, user_id, month, lines, subtotals, n) matches Some(after) ==> {
            let key = key_of(user_id, month, lines[i].goods_id);
            after.contains_key(key) && after[key]@ == amount_booked(ledger, key) + subtotals[i]@
        },
    decreases n,
{
    let key = key_of(user_id, month, lines[i].goods_id);
    assert(goods_at(lines, i) == lines[i].goods_id);
    if let Some(before) = book(ledger, user_id, month, lines, subtotals, (n - 1) as nat) {
        if i == n - 1 {
            assert forall|j: int| 0 <= j < n - 1 implies key_of(user_id, month, goods_at(lines, j))
                != key by {}
            lemma_book_frame(ledger, user_id, month, lines, subtotals, (n - 1) as nat, key);
            if let Some(entry) = lookup(before, key) {
                entry.lemma_sum(subtotals[i]);
            }
        } else {
            lemma_book_line(ledger, user_id, month, lines, subtotals, (n - 1) as nat, i);
            assert(goods_at(lines, n - 1) != goods_at(lines, i));
        }
    }
}

/// What a successful purchase does, exactly. The customer's balance goes down by
/// what the cart costs and no other balance changes. Of every goods item the
/// stock goes down by the units that the cart wants of it, which is none for a
/// goods item that the cart does not name, and no price changes. For each line
/// the ledger entry of customer, month and goods item goes up by the line's
/// subtotal, starting from zero where there was no entry, and no other entry
/// changes.
pub proof fn success_settles_exactly(
    s: StoreState,
    user_id: i64,
    month: Month,
    lines: Seq<CartLine>,
)
    requires
        distinct_goods(lines),
        positive_quantities(lines),
        verdict(s, user_id, month, lines).1 == Ok::<PurchaseOutcome, PurchaseError>(
            PurchaseOutcome::Success,
        ),
    ensures
        ({
            let after = verdict(s, user_id, month, lines).0;
            let prices = prices_of(s.goods, lines);
            &&& s.customers.contains_key(user_id)
            &&& after.customers.contains_key(user_id)
            &&& after.customers[user_id]@ == s.customers[user_id]@ - cost(
                lines,
                prices,
                lines.len(),
            )
            &&& after.customers[user_id]@ >= 0
            &&& forall|u: i64| u != user_id ==> lookup(after.customers, u) == lookup(s.customers, u)
            &&& forall|g: i32|
                after.goods.contains_key(g) == #[trigger] s.goods.contains_key(g)
            &&& forall|g: i32| #[trigger]
                s.goods.contains_key(g) ==> {
                    &&& after.goods[g].price == s.goods[g].price
                    &&& on_hand(after.goods[g].stock) == on_hand(s.goods[g].stock) - wanted(
                        lines,
                        g,
                    )
                    &&& on_hand(after.goods[g].stock) >= 0 || !names_goods(lines, g)
                }
            &&& forall|i: int|
                0 <= i < lines.len() ==> {
                    let key = key_of(user_id, month, (#[trigger] lines[i]).goods_id);
                    &&& after.ledger.contains_key(key)
                    &&& after.ledger[key]@ == amount_booked(s.ledger, key) + prices[i]@
                        * lines[i].quantity
                }
            &&& forall|key: LedgerKey|
                !(key.user_id == user_id && key.month == month && names_goods(lines, key.goods_id))
                    ==> #[trigger] lookup(after.ledger, key) == lookup(s.ledger, key)
        }),
{
    let after = verdict(s, user_id, month, lines).0;
    let prices = prices_of(s.goods, lines);
    let n = lines.len();
    if exists|k: int| first_unavailable(s.goods, lines, k) {
        assert(false);
    }
    assert forall|j: int| 0 <= j < n implies available(s.goods, #[trigger] lines[j]) by {
        if !available(s.goods, lines[j]) {
            let c = lemma_least_unavailable(s.goods, lines, j);
        }
    }
    let p = priced(lines, prices)->0;
    lemma_priced(lines, prices);
    assert(settled(s, user_id, month, lines, p) == Some(after));
    s.customers[user_id].lemma_difference(p.total);
    assert forall|g: i32| after.goods.contains_key(g) == #[trigger] s.goods.contains_key(g) by {
        if names_goods(lines, g) {
            let i = line_of(lines, g);
            lemma_debit_stock_line(s.goods, lines, n, i);
            assert(available(s.goods, lines[i]));
        } else {
            assert forall|j: int| 0 <= j < n implies goods_at(lines, j) != g by {}
            lemma_debit_stock_frame(s.goods, lines, n, g);
        }
    }
    assert forall|g: i32| #[trigger] s.goods.contains_key(g) implies {
        &&& after.goods[g].price == s.goods[g].price
        &&& on_hand(after.goods[g].stock) == on_hand(s.goods[g].stock) - wanted(lines, g)
        &&& on_hand(after.goods[g].stock) >= 0 || !names_goods(lines, g)
    } by {
        if names_goods(lines, g) {
            let i = line_of(lines, g);
            lemma_debit_stock_line(s.goods, lines, n, i);
            assert(available(s.goods, lines[i]));
            assert(lines[i].quantity > 0);
        } else {
            assert forall|j: int| 0 <= j < n implies goods_at(lines, j) != g by {}
            lemma_debit_stock_frame(s.goods, lines, n, g);
        }
    }
    assert forall|i: int| 0 <= i < lines.len() implies {
        let key = key_of(user_id, month, (#[trigger] lines[i]).goods_id);
        &&& after.ledger.contains_key(key)
        &&& after.ledger[key]@ == amount_booked(s.ledger, key) + prices[i]@ * lines[i].quantity
    } by {
        lemma_book_line(s.ledger, user_id, month, lines, p.subtotals, n, i);
    }
    assert forall|key: LedgerKey|
        !(key.user_id == user_id && key.month == month && names_goods(
            lines,
            key.goods_id,
        )) implies #[trigger] lookup(after.ledger, key) == lookup(s.ledger, key) by {
        assert forall|j: int| 0 <= j < n implies key_of(user_id, month, goods_at(lines, j))
            != key by {
            if key_of(user_id, month, goods_at(lines, j)) == key {
                assert(goods_at(lines, j) == key.goods_id);
            }
        }
        lemma_book_frame(s.ledger, user_id, month, lines, p.subtotals, n, key);
    }
}

/// Buying the same cart again in the same month, both times with success, creates
/// no ledger entry: the entries are those that the first purchase left, and the
/// entry of each line has gone up by the subtotal of the second purchase.
pub proof fn repeat_accumulates(s: StoreState, user_id: i64, month: Month, lines: Seq<CartLine>)
    requires
        distinct_goods(lines),
        positive_quantities(lines),
        verdict(s, user_id, month, lines).1 == Ok::<PurchaseOutcome, PurchaseError>(
            PurchaseOutcome::Success,
        ),
        verdict(verdict(s, user_id, month, lines).0, user_id, month, lines).1 == Ok::<
            PurchaseOutcome,
            PurchaseError,
        >(PurchaseOutcome::Success),
    ensures
        ({
            let first = verdict(s, user_id, month, lines).0;
            let second = verdict(first, user_id, month, lines).0;
            &&& forall|key: LedgerKey|
                second.ledger.contains_key(key) == #[trigger] first.ledger.contains_key(key)
            &&& forall|i: int|
                0 <= i < lines.len() ==> {
                    let key = key_of(user_id, month, (#[trigger] lines[i]).goods_id);
                    &&& first.ledger.contains_key(key)
                    &&& second.ledger[key]@ == first.ledger[key]@ + prices_of(first.goods, lines)[i]@
                        * lines[i].quantity
                }
        }),
{
    let first = verdict(s, user_id, month, lines).0;
    let second = verdict(first, user_id, month, lines).0;
    success_settles_exactly(s, user_id, month, lines);
    success_settles_exactly(first, user_id, month, lines);
    assert forall|key: LedgerKey|
        second.ledger.contains_key(key) == #[trigger] first.ledger.contains_key(key) by {
        if key.user_id == user_id && key.month == month && names_goods(lines, key.goods_id) {
            let i = line_of(lines, key.goods_id);
            assert(key == key_of(user_id, month, lines[i].goods_id));
        } else {
            assert(lookup(second.ledger, key) == lookup(first.ledger, key));
        }
    }
}

/// The unit price of every goods item on the shelf, as a number.
pub open spec fn price_in(goods: Map<i32, GoodsRow>) -> spec_fn(i32) -> int {
    |g: i32| goods[g].price@
}

/// What the lines cost at the prices on the shelf is the sum over the lines of
/// unit price times quantity.
pub proof fn lemma_cost_is_total(goods: Map<i32, GoodsRow>, lines: Seq<CartLine>, n: nat)
    requires
        n <= lines.len(),
    ensures
        cost(lines, prices_of(goods, lines), n) == lines_total(lines, price_in(goods), n),
    decreases n,
{
    if n > 0 {
        lemma_cost_is_total(goods, lines, (n - 1) as nat);
    }
}

/// A purchase request that succeeds takes from the stock of every goods item
/// exactly the units that the items of the cart ask for of it, all lines for one
/// goods item together, and leaves no stock below zero that it took from. From
/// the balance of the customer it takes what the items cost as they were sent:
/// the sum over the items of unit price times quantity.
pub proof fn purchase_takes_what_the_cart_asks(
    s: StoreState,
    user_id: i64,
    month: Month,
    items: Seq<PurchaseItem>,
)
    requires
        purchase(s, user_id, month, items).1 == Ok::<
            Result<PurchaseOutcome, PurchaseError>,
            CartError,
        >(Ok(PurchaseOutcome::Success)),
    ensures
        ({
            let after = purchase(s, user_id, month, items).0;
            &&& forall|g: i32| #[trigger]
                s.goods.contains_key(g) ==> {
                    &&& after.goods.contains_key(g)
                    &&& after.goods[g].price == s.goods[g].price
                    &&& on_hand(after.goods[g].stock) == on_hand(s.goods[g].stock) - quantity_of(
                        items,
                        g,
                    )
                    &&& quantity_of(items, g) > 0 ==> on_hand(after.goods[g].stock) >= 0
                }
            &&& s.customers.contains_key(user_id)
            &&& after.customers.contains_key(user_id)
            &&& after.customers[user_id]@ == s.customers[user_id]@ - items_total(
                items,
                price_in(s.goods),
                items.len(),
            )
            &&& after.customers[user_id]@ >= 0
        }),
{
    lemma_all_positive(items, items.len() as int);
    merging_keeps_quantities(items);
    let lines = merged(items);
    success_settles_exactly(s, user_id, month, lines);
    let after = purchase(s, user_id, month, items).0;
    assert forall|j: int| 0 <= j < lines.len() implies available(s.goods, #[trigger] lines[j]) by {
        if !available(s.goods, lines[j]) {
            let c = lemma_least_unavailable(s.goods, lines, j);
        }
    }
    assert forall|g: i32| #[trigger] s.goods.contains_key(g) implies {
        &&& after.goods.contains_key(g)
        &&& after.goods[g].price == s.goods[g].price
        &&& on_hand(after.goods[g].stock) == on_hand(s.goods[g].stock) - quantity_of(items, g)
        &&& quantity_of(items, g) > 0 ==> on_hand(after.goods[g].stock) >= 0
    } by {
        assert(wanted(lines, g) == capped(quantity_of(items, g)));
        if names_goods(lines, g) {
            assert(available(s.goods, lines[line_of(lines, g)]));
        }
        assert(after.goods.contains_key(g) == s.goods.contains_key(g));
    }
    assert forall|j: int| 0 <= j < lines.len() implies (#[trigger] lines[j]).quantity
        < i64::MAX by {
        assert(available(s.goods, lines[j]));
    }
    merging_keeps_the_total(items, price_in(s.goods));
    lemma_cost_is_total(s.goods, lines, lines.len());
}

/// The units that the items ask for of a goods item are at least those of any one
/// item that names it.
pub proof fn lemma_quantity_at_least(items: Seq<PurchaseItem>, k: int)
    requires
        forall|j: int| 0 <= j < items.len() ==> (#[trigger] items[j]).quantity > 0,
        0 <= k < items.len(),
    ensures
        quantity_of(items, items[k].goods_id) >= items[k].quantity,
    decreases items.len(),
{
    let before = items.drop_last();
    assert forall|j: int| 0 <= j < before.len() implies (#[trigger] before[j]).quantity > 0 by {
        assert(before[j] == items[j]);
    }
    merging_keeps_quantities(before);
    let g = items[k].goods_id;
    assert(quantity_of(before, g) >= 0);
    if k < items.len() - 1 {
        assert(before[k] == items[k]);
        lemma_quantity_at_least(before, k);
        assert(items.last().quantity > 0);
    } else {
        assert(items.last() == items[k]);
    }
}

/// The item that opened line `p` of the merged cart: the first item that names the
/// goods item of that line.
pub open spec fn opener(items: Seq<PurchaseItem>, p: int) -> int
    decreases items.len(),
{
    if items.len() == 0 {
        0
    } else if p < merged(items.drop_last()).len() {
        opener(items.drop_last(), p)
    } else {
        items.len() - 1
    }
}

/// The lines of a merged cart stand in the order in which their goods first occur
/// among the items: every line was opened by an item that names its goods, lines
/// further down were opened later, and no item comes before the opener of the
/// line of its goods.
pub proof fn lemma_opener(items: Seq<PurchaseItem>)
    requires
        forall|j: int| 0 <= j < items.len() ==> (#[trigger] items[j]).quantity > 0,
    ensures
        forall|p: int|
            0 <= p < merged(items).len() ==> 0 <= #[trigger] opener(items, p) < items.len()
                && items[opener(items, p)].goods_id == merged(items)[p].goods_id,
        forall|p: int, q: int|
            0 <= p <= q < merged(items).len() ==> #[trigger] opener(items, p) <= #[trigger] opener(
                items,
                q,
            ),
        forall|k: int, p: int|
            0 <= k < items.len() && 0 <= p < merged(items).len() && #[trigger] goods_at(
                merged(items),
                p,
            ) == (#[trigger] items[k]).goods_id ==> opener(items, p) <= k,
    decreases items.len(),
{
    if items.len() > 0 {
        let n = items.len() as int;
        let before = items.drop_last();
        let item = items.last();
        let lines = merged(before);
        let after = merged(items);
        assert forall|j: int| 0 <= j < before.len() implies (#[trigger] before[j]).quantity
            > 0 by {
            assert(before[j] == items[j]);
        }
        lemma_opener(before);
        merging_keeps_quantities(before);
        crate::cart::lemma_with_item(lines, item);
        assert forall|p: int| 0 <= p < lines.len() implies goods_at(after, p) == goods_at(
            lines,
            p,
        ) by {}
        assert forall|p: int| 0 <= p < after.len() implies 0 <= #[trigger] opener(items, p)
            < items.len() && items[opener(items, p)].goods_id == after[p].goods_id by {
            if p < lines.len() {
                assert(items[opener(before, p)] == before[opener(before, p)]);
                assert(goods_at(after, p) == goods_at(lines, p));
            }
        }
        assert forall|p: int, q: int| 0 <= p <= q < after.len() implies #[trigger] opener(
            items,
            p,
        ) <= #[trigger] opener(items, q) by {
            if q < lines.len() {
                assert(opener(before, p) <= opener(before, q));
            } else if p < lines.len() {
                assert(0 <= opener(before, p) < before.len());
            }
        }
        assert forall|k: int, p: int|
            0 <= k < items.len() && 0 <= p < after.len() && #[trigger] goods_at(after, p) == (
            #[trigger] items[k]).goods_id implies opener(items, p) <= k by {
            if p < lines.len() {
                assert(goods_at(lines, p) == goods_at(after, p));
                if k < n - 1 {
                    assert(before[k] == items[k]);
                }
            } else if k < n - 1 {
                assert(before[k] == items[k]);
                lemma_quantity_at_least(before, k);
                assert(wanted(lines, items[k].goods_id) == capped(
                    quantity_of(before, items[k].goods_id),
                ));
                assert(names_goods(lines, item.goods_id));
            }
        }
    }
}

/// A purchase request with an item that by itself wants more units of its goods
/// item than are in stock ends with `InsufficientStock` and leaves stock, balances
/// and ledger as they were, provided every item asks for at least one unit and
/// the goods of that item and of all items before it are on the shelf. It does so
/// whatever the balance and whoever the customer.
pub proof fn short_item_changes_nothing(
    s: StoreState,
    user_id: i64,
    month: Month,
    items: Seq<PurchaseItem>,
    i: int,
)
    requires
        forall|j: int| 0 <= j < items.len() ==> (#[trigger] items[j]).quantity > 0,
        0 <= i < items.len(),
        forall|j: int| 0 <= j <= i ==> s.goods.contains_key((#[trigger] items[j]).goods_id),
        on_hand(s.goods[items[i].goods_id].stock) < items[i].quantity,
    ensures
        purchase(s, user_id, month, items) == (
            s,
            Ok::<Result<PurchaseOutcome, PurchaseError>, CartError>(
                Ok(PurchaseOutcome::InsufficientStock),
            ),
        ),
{
    let lines = merged(items);
    let g = items[i].goods_id;
    merging_keeps_quantities(items);
    lemma_quantity_at_least(items, i);
    lemma_opener(items);
    assert(wanted(lines, g) == capped(quantity_of(items, g)));
    assert(names_goods(lines, g));
    let p = line_of(lines, g);
    assert(goods_at(lines, p) == g);
    assert(opener(items, p) <= i);
    assert forall|q: int| 0 <= q < p + 1 implies s.goods.contains_key(
        #[trigger] goods_at(lines, q),
    ) by {
        assert(opener(items, q) <= opener(items, p));
        assert(items[opener(items, q)].goods_id == lines[q].goods_id);
    }
    short_stock_changes_nothing(s, user_id, month, lines, p);
    assert forall|k: int| !crate::cart::first_non_positive(items, k) by {
        if 0 <= k < items.len() {
            assert(items[k].quantity > 0);
        }
    }
}

/// What the ledger entries of the first `n` lines have gone up by, from `before`
/// to `after`, an entry that was not there counting as zero.
pub open spec fn ledger_growth(
    before: Map<LedgerKey, Amount>,
    after: Map<LedgerKey, Amount>,
    user_id: i64,
    month: Month,
    lines: Seq<CartLine>,
    n: nat,
) -> int
    decreases n,
{
    if n == 0 {
        0
    } else {
        let key = key_of(user_id, month, lines[n - 1].goods_id);
        ledger_growth(before, after, user_id, month, lines, (n - 1) as nat) + after[key]@
            - amount_booked(before, key)
    }
}

proof fn lemma_ledger_growth(
    before: Map<LedgerKey, Amount>,
    after: Map<LedgerKey, Amount>,
    user_id: i64,
    month: Month,
    lines: Seq<CartLine>,
    prices: Seq<Amount>,
    n: nat,
)
    requires
        n <= lines.len(),
        forall|i: int|
            0 <= i < lines.len() ==> {
                let key = key_of(user_id, month, (#[trigger] lines[i]).goods_id);
                after[key]@ == amount_booked(before, key) + prices[i]@ * lines[i].quantity
            },
    ensures
        ledger_growth(before, after, user_id, month, lines, n) == cost(lines, prices, n),
    decreases n,
{
    if n > 0 {
        lemma_ledger_growth(before, after, user_id, month, lines, prices, (n - 1) as nat);
    }
}

/// What a successful purchase adds to the ledger of the customer's month is what
/// it takes from the customer's balance: the ledger never shows more than was spent.
pub proof fn ledger_grows_by_what_is_spent(
    s: StoreState,
    user_id: i64,
    month: Month,
    lines: Seq<CartLine>,
)
    requires
        distinct_goods(lines),
        positive_quantities(lines),
        verdict(s, user_id, month, lines).1 == Ok::<PurchaseOutcome, PurchaseError>(
            PurchaseOutcome::Success,
        ),
    ensures
        ({
            let after = verdict(s, user_id, month, lines).0;
            ledger_growth(s.ledger, after.ledger, user_id, month, lines, lines.len())
                == s.customers[user_id]@ - after.customers[user_id]@
        }),
{
    let after = verdict(s, user_id, month, lines).0;
    success_settles_exactly(s, user_id, month, lines);
    lemma_ledger_growth(
        s.ledger,
        after.ledger,
        user_id,
        month,
        lines,
        prices_of(s.goods, lines),
        lines.len(),
    );
}

/// The phase asks for a locking read of a goods row or of the customer row.
pub open spec fn checking(e: EngineState) -> bool {
    e.phase is LockingGoods || e.phase is LockingCustomer
}

/// A shortage is found before anything is written. `InsufficientStock` comes only
/// in answer to the locking read of a goods row and `InsufficientBalance` only in
/// answer to the locking read of the customer row, and once a purchase has left
/// these reads behind it never comes back to them: whatever the store answers,
/// no shortage can follow a write.
pub proof fn shortage_is_found_before_any_write(e: EngineState, reply: StoreReply)
    requires
        e.wf(),
    ensures
        transition(e, reply) == Transition::Done(Ok(PurchaseOutcome::InsufficientStock))
            ==> e.phase is LockingGoods,
        transition(e, reply) == Transition::Done(Ok(PurchaseOutcome::InsufficientBalance))
            ==> e.phase is LockingCustomer,
        transition(e, reply) matches Transition::Next(next) ==> (checking(next) ==> checking(e)),
        checking(e) ==> !(e.request() is DebitStock || e.request() is DebitBalance
            || e.request() is AddToLedger || e.request() is InsertLedger
            || e.request() is Commit),
{
}

} // verus!
