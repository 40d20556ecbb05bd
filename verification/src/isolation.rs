use crate::amount::Amount;
use crate::cart::{distinct_goods, goods_at, positive_quantities, CartLine};
use crate::guarantees::{checking, key_of, lemma_book_frame};
use crate::models::Month;
use crate::purchase::{
    transition, EngineState, LedgerKey, PurchaseAction, PurchaseError, PurchaseOutcome,
    PurchaseResult, Transition,
};
use crate::settlement::{
    all_available, available, book, booked, cleared, debit_stock, lemma_debit_stock_frame,
    lemma_exchange, on_track, paid, prices_of, verdict,
};
use crate::store::{GoodsRow, StoreState};
use crate::table::lookup;
use vstd::prelude::*;

verus! {

/// One purchase in flight: the state of its engine, and the store as its
/// transaction sees it.
pub struct Session {
    pub e: EngineState,
    pub w: StoreState,
}

/// How many lines of the cart have their goods row locked.
pub open spec fn locked_lines(e: EngineState) -> int {
    e.reserved()
}

/// The purchase holds the lock on the goods row.
pub open spec fn holds_goods(e: EngineState, goods_id: i32) -> bool {
    exists|j: int| 0 <= j < locked_lines(e) && #[trigger] goods_at(e.lines, j) == goods_id
}

/// The purchase holds the lock on the row of the customer account. With it goes
/// the customer's part of the ledger, which only a purchase of that customer
/// reads or writes.
pub open spec fn holds_customer(e: EngineState, user_id: i64) -> bool {
    !checking(e) && e.user_id == user_id
}

/// The store `base` with the rows that `owner` holds taken from `from`: what a
/// commit of `owner` makes of the store, and of what every other transaction sees.
pub open spec fn overlay(base: StoreState, from: StoreState, owner: EngineState) -> StoreState {
    StoreState {
        goods: Map::new(
            |g: i32|
                if holds_goods(owner, g) {
                    from.goods.contains_key(g)
                } else {
                    base.goods.contains_key(g)
                },
            |g: i32|
                if holds_goods(owner, g) {
                    from.goods[g]
                } else {
                    base.goods[g]
                },
        ),
        customers: Map::new(
            |u: i64|
                if holds_customer(owner, u) {
                    from.customers.contains_key(u)
                } else {
                    base.customers.contains_key(u)
                },
            |u: i64|
                if holds_customer(owner, u) {
                    from.customers[u]
                } else {
                    base.customers[u]
                },
        ),
        ledger: Map::new(
            |k: LedgerKey|
                if holds_customer(owner, k.user_id) {
                    from.ledger.contains_key(k)
                } else {
                    base.ledger.contains_key(k)
                },
            |k: LedgerKey|
                if holds_customer(owner, k.user_id) {
                    from.ledger[k]
                } else {
                    base.ledger[k]
                },
        ),
        ..base
    }
}

/// Several purchases at once against one store.
pub struct Floor {
    /// What the store holds for good.
    pub committed: StoreState,
    /// The purchases in flight, `None` for one that is over.
    pub sessions: Seq<Option<Session>>,
    /// How each purchase that is over ended.
    pub results: Seq<Option<PurchaseResult>>,
    /// The purchases that are over, in the order in which they ended.
    pub ended: Seq<int>,
}

/// The purchase at place `i`, if it is still in flight.
pub open spec fn session_at(sessions: Seq<Option<Session>>, i: int) -> Option<Session> {
    sessions[i]
}

/// The request of purchase `who` has to wait: it asks for the lock on a row that
/// another purchase in flight holds.
pub open spec fn blocked(sessions: Seq<Option<Session>>, who: int) -> bool {
    match sessions[who]->0.e.request() {
        PurchaseAction::LockGoods { goods_id } => exists|j: int|
            0 <= j < sessions.len() && j != who && (#[trigger] session_at(sessions, j)) is Some
                && holds_goods(session_at(sessions, j)->0.e, goods_id),
        PurchaseAction::LockCustomer { user_id } => exists|j: int|
            0 <= j < sessions.len() && j != who && (#[trigger] session_at(sessions, j)) is Some
                && holds_customer(session_at(sessions, j)->0.e, user_id),
        _ => false,
    }
}

/// What the others see once a purchase has committed `from`.
pub open spec fn refreshed(
    sessions: Seq<Option<Session>>,
    who: int,
    from: StoreState,
    owner: EngineState,
) -> Seq<Option<Session>> {
    Seq::new(
        sessions.len(),
        |j: int|
            if j == who {
                None
            } else {
                match sessions[j] {
                    Some(other) => Some(Session { e: other.e, w: overlay(other.w, from, owner) }),
                    None => None,
                }
            },
    )
}

/// One move: purchase `who` puts its pending request to the store and takes the
/// answer, unless it is over or has to wait for a lock. A purchase that ends
/// gives up its locks; one that ends with success leaves the rows it held, as it
/// wrote them, to the store and to all who come after.
pub open spec fn moved(f: Floor, who: int) -> Floor {
    if !(0 <= who < f.sessions.len()) || f.sessions[who] is None || blocked(f.sessions, who) {
        f
    } else {
        let session = f.sessions[who]->0;
        let (after, reply) = session.w.answer(session.e.request());
        match transition(session.e, reply) {
            Transition::Next(next) => Floor {
                sessions: f.sessions.update(who, Some(Session { e: next, w: after })),
                ..f
            },
            Transition::Done(result) => if result == Ok::<PurchaseOutcome, PurchaseError>(
                PurchaseOutcome::Success,
            ) {
                Floor {
                    committed: overlay(f.committed, after, session.e),
                    sessions: refreshed(f.sessions, who, after, session.e),
                    results: f.results.update(who, Some(result)),
                    ended: f.ended.push(who),
                }
            } else {
                Floor {
                    sessions: f.sessions.update(who, None),
                    results: f.results.update(who, Some(result)),
                    ended: f.ended.push(who),
                    ..f
                }
            },
        }
    }
}

/// The floor after the moves that `schedule` names, one after the other.
pub open spec fn played(f: Floor, schedule: Seq<int>) -> Floor
    decreases schedule.len(),
{
    if schedule.len() == 0 {
        f
    } else {
        moved(played(f, schedule.drop_last()), schedule.last())
    }
}

/// What a customer asks for: the account, the month, and the checked cart.
pub struct Order {
    pub user_id: i64,
    pub month: Month,
    pub lines: Seq<CartLine>,
}

impl Order {
    /// The cart has passed the checks: it has a line, no goods item twice, and
    /// every line asks for at least one unit.
    pub open spec fn wf(self) -> bool {
        self.lines.len() > 0 && distinct_goods(self.lines) && positive_quantities(self.lines)
    }
}

/// The floor on which all orders have been taken and none has asked anything yet.
pub open spec fn opened(s: StoreState, orders: Seq<Order>) -> Floor {
    Floor {
        committed: s,
        sessions: Seq::new(
            orders.len(),
            |i: int|
                Some(
                    Session {
                        e: EngineState::initial(orders[i].user_id, orders[i].month, orders[i].lines),
                        w: s,
                    },
                ),
        ),
        results: Seq::new(orders.len(), |i: int| None),
        ended: Seq::empty(),
    }
}

/// The store after the first `n` of the purchases in `order` were served one
/// after the other, each alone.
pub open spec fn served(s: StoreState, orders: Seq<Order>, order: Seq<int>, n: nat) -> StoreState
    decreases n,
{
    if n == 0 {
        s
    } else {
        let who = order[n - 1];
        verdict(
            served(s, orders, order, (n - 1) as nat),
            orders[who].user_id,
            orders[who].month,
            orders[who].lines,
        ).0
    }
}

/// How the `n`-th of the purchases in `order` ends when they are served one after
/// the other, each alone.
pub open spec fn served_result(
    s: StoreState,
    orders: Seq<Order>,
    order: Seq<int>,
    n: nat,
) -> PurchaseResult {
    let who = order[n as int];
    verdict(served(s, orders, order, n), orders[who].user_id, orders[who].month, orders[who].lines).1
}

/// What holds on the floor at every moment: every purchase in flight is on
/// track against what the store holds for good, no row is held twice, and what
/// has ended has ended as if the purchases had been served one after the other.
pub open spec fn orderly(f: Floor, s: StoreState, orders: Seq<Order>) -> bool {
    &&& f.sessions.len() == orders.len()
    &&& f.results.len() == orders.len()
    &&& forall|i: int|
        0 <= i < f.sessions.len() && (#[trigger] session_at(f.sessions, i)) is Some ==> {
            let session = session_at(f.sessions, i)->0;
            &&& on_track(session.e, session.w, f.committed)
            &&& session.e.user_id == orders[i].user_id
            &&& session.e.month == orders[i].month
            &&& session.e.lines == orders[i].lines
        }
    &&& forall|i: int, j: int|
        0 <= i < f.sessions.len() && 0 <= j < f.sessions.len() && i != j && (
        #[trigger] session_at(f.sessions, i)) is Some && (#[trigger] session_at(f.sessions, j))
            is Some ==> apart(session_at(f.sessions, i)->0.e, session_at(f.sessions, j)->0.e)
    &&& f.committed == served(s, orders, f.ended, f.ended.len())
    &&& forall|k: int|
        0 <= k < f.ended.len() ==> {
            &&& 0 <= #[trigger] f.ended[k] < orders.len()
            &&& f.results[f.ended[k]] == Some(served_result(s, orders, f.ended, k as nat))
            &&& f.sessions[f.ended[k]] is None
        }
}

/// Two purchases hold no row in common.
pub open spec fn apart(a: EngineState, b: EngineState) -> bool {
    &&& forall|g: i32| !(holds_goods(a, g) && holds_goods(b, g))
    &&& forall|u: i64| !(holds_customer(a, u) && holds_customer(b, u))
}

/// A purchase that is on track sees of every row that it does not hold what the
/// store holds for good.
pub proof fn lemma_in_step(e: EngineState, w: StoreState, s: StoreState)
    requires
        on_track(e, w, s),
    ensures
        forall|g: i32| !holds_goods(e, g) ==> #[trigger] lookup(w.goods, g) == lookup(s.goods, g),
        forall|u: i64|
            !holds_customer(e, u) ==> #[trigger] lookup(w.customers, u) == lookup(s.customers, u),
        forall|k: LedgerKey|
            !holds_customer(e, k.user_id) ==> #[trigger] lookup(w.ledger, k) == lookup(s.ledger, k),
        w.lost_items == s.lost_items,
        w.messages == s.messages,
        overlay(s, w, e) == w,
{
    let n = e.lines.len();
    if !checking(e) {
        let debited_lines: nat = if e.phase is DebitingStock {
            e.cursor as nat
        } else {
            n
        };
        assert forall|g: i32| !holds_goods(e, g) implies #[trigger] lookup(w.goods, g) == lookup(
            s.goods,
            g,
        ) by {
            assert forall|j: int| 0 <= j < debited_lines implies goods_at(e.lines, j) != g by {}
            lemma_debit_stock_frame(s.goods, e.lines, debited_lines, g);
        }
        if !(e.phase is DebitingStock || e.phase is DebitingBalance) {
            let booked_lines: nat = if e.phase is Committing {
                n
            } else {
                e.cursor as nat
            };
            assert forall|k: LedgerKey| !holds_customer(e, k.user_id) implies #[trigger] lookup(
                w.ledger,
                k,
            ) == lookup(s.ledger, k) by {
                lemma_book_frame(s.ledger, e.user_id, e.month, e.lines, e.subtotals, booked_lines, k);
            }
        }
    }
    let o = overlay(s, w, e);
    assert(o.goods =~= w.goods) by {
        assert forall|g: i32| o.goods.contains_key(g) == w.goods.contains_key(g) by {
            if !holds_goods(e, g) {
                assert(lookup(w.goods, g) == lookup(s.goods, g));
            }
        }
        assert forall|g: i32| o.goods.contains_key(g) implies o.goods[g] == w.goods[g] by {
            if !holds_goods(e, g) {
                assert(lookup(w.goods, g) == lookup(s.goods, g));
            }
        }
    }
    assert(o.customers =~= w.customers) by {
        assert forall|u: i64| o.customers.contains_key(u) == w.customers.contains_key(u) by {
            if !holds_customer(e, u) {
                assert(lookup(w.customers, u) == lookup(s.customers, u));
            }
        }
        assert forall|u: i64| o.customers.contains_key(u) implies o.customers[u]
            == w.customers[u] by {
            if !holds_customer(e, u) {
                assert(lookup(w.customers, u) == lookup(s.customers, u));
            }
        }
    }
    assert(o.ledger =~= w.ledger) by {
        assert forall|k: LedgerKey| o.ledger.contains_key(k) == w.ledger.contains_key(k) by {
            if !holds_customer(e, k.user_id) {
                assert(lookup(w.ledger, k) == lookup(s.ledger, k));
            }
        }
        assert forall|k: LedgerKey| o.ledger.contains_key(k) implies o.ledger[k] == w.ledger[k] by {
            if !holds_customer(e, k.user_id) {
                assert(lookup(w.ledger, k) == lookup(s.ledger, k));
            }
        }
    }
}

/// A purchase that goes on holds what it held, and the row whose lock it asked
/// for if it asked for one.
pub proof fn lemma_holdings_grow(e: EngineState, reply: crate::purchase::StoreReply)
    requires
        e.wf(),
    ensures
        transition(e, reply) matches Transition::Next(next) ==> {
            &&& forall|g: i32| #[trigger]
                holds_goods(next, g) ==> holds_goods(e, g) || e.request()
                    == (PurchaseAction::LockGoods { goods_id: g })
            &&& forall|u: i64| #[trigger]
                holds_customer(next, u) ==> holds_customer(e, u) || e.request()
                    == (PurchaseAction::LockCustomer { user_id: u })
        },
{
    if let Transition::Next(next) = transition(e, reply) {
        crate::purchase::lemma_progress(e, reply);
        assert forall|g: i32| #[trigger] holds_goods(next, g) implies holds_goods(e, g)
            || e.request() == (PurchaseAction::LockGoods { goods_id: g }) by {
            let j = choose|j: int|
                0 <= j < locked_lines(next) && #[trigger] goods_at(next.lines, j) == g;
            if e.phase is LockingGoods {
                if j < e.cursor {
                    assert(goods_at(e.lines, j) == g);
                }
            } else {
                assert(goods_at(e.lines, j) == g);
            }
        }
    }
}

/// Debiting the first `n` lines gives the same row for a goods item from any two
/// stocks that agree on it and on the goods of those lines.
pub proof fn lemma_debit_stock_same(
    one: Map<i32, GoodsRow>,
    two: Map<i32, GoodsRow>,
    lines: Seq<CartLine>,
    n: nat,
)
    requires
        n <= lines.len(),
        forall|j: int|
            0 <= j < n ==> one.contains_key(#[trigger] goods_at(lines, j)) && lookup(
                one,
                goods_at(lines, j),
            ) == lookup(two, goods_at(lines, j)),
    ensures
        forall|g: i32|
            lookup(one, g) == lookup(two, g) ==> #[trigger] lookup(debit_stock(one, lines, n), g)
                == lookup(debit_stock(two, lines, n), g),
        forall|g: i32| one.contains_key(g) ==> #[trigger] debit_stock(one, lines, n).contains_key(g),
    decreases n,
{
    if n > 0 {
        lemma_debit_stock_same(one, two, lines, (n - 1) as nat);
        let id = lines[n - 1].goods_id;
        assert(goods_at(lines, n - 1) == id);
        let before_one = debit_stock(one, lines, (n - 1) as nat);
        let before_two = debit_stock(two, lines, (n - 1) as nat);
        assert(lookup(before_one, id) == lookup(before_two, id));
        assert(before_one.contains_key(id));
        assert forall|g: i32| lookup(one, g) == lookup(two, g) implies #[trigger] lookup(
            debit_stock(one, lines, n),
            g,
        ) == lookup(debit_stock(two, lines, n), g) by {
            assert(lookup(before_one, g) == lookup(before_two, g));
        }
        assert forall|g: i32| one.contains_key(g) implies #[trigger] debit_stock(
            one,
            lines,
            n,
        ).contains_key(g) by {
            assert(before_one.contains_key(g));
        }
    }
}

/// Booking the first `n` lines for a customer goes the same way on any two
/// ledgers that agree on the entries of that customer.
pub proof fn lemma_book_same(
    one: Map<LedgerKey, Amount>,
    two: Map<LedgerKey, Amount>,
    user_id: i64,
    month: Month,
    lines: Seq<CartLine>,
    subtotals: Seq<Amount>,
    n: nat,
)
    requires
        n <= lines.len(),
        forall|k: LedgerKey| k.user_id == user_id ==> #[trigger] lookup(one, k) == lookup(two, k),
    ensures
        book(one, user_id, month, lines, subtotals, n) is Some == book(
            two,
            user_id,
            month,
            lines,
            subtotals,
            n,
        ) is Some,
        book(one, user_id, month, lines, subtotals, n) is Some ==> forall|k: LedgerKey|
            k.user_id == user_id ==> #[trigger] lookup(
                book(one, user_id, month, lines, subtotals, n)->0,
                k,
            ) == lookup(book(two, user_id, month, lines, subtotals, n)->0, k),
    decreases n,
{
    if n > 0 {
        lemma_book_same(one, two, user_id, month, lines, subtotals, (n - 1) as nat);
        let key = key_of(user_id, month, lines[n - 1].goods_id);
        if let Some(before_one) = book(one, user_id, month, lines, subtotals, (n - 1) as nat) {
            let before_two = book(two, user_id, month, lines, subtotals, (n - 1) as nat)->0;
            assert(lookup(before_one, key) == lookup(before_two, key));
            if let Some(after_one) = booked(before_one, key, subtotals[n - 1]) {
                let after_two = booked(before_two, key, subtotals[n - 1])->0;
                assert forall|k: LedgerKey| k.user_id == user_id implies #[trigger] lookup(
                    after_one,
                    k,
                ) == lookup(after_two, k) by {
                    assert(lookup(before_one, k) == lookup(before_two, k));
                }
            }
        }
    }
}

/// What a purchase has checked and read stays as it is when another purchase
/// commits, for the other held none of its rows.
proof fn lemma_checks_stand(e: EngineState, s: StoreState, after: StoreState, owner: EngineState)
    requires
        e.wf(),
        apart(e, owner),
        forall|g: i32|
            !holds_goods(owner, g) ==> #[trigger] lookup(after.goods, g) == lookup(s.goods, g),
        forall|u: i64|
            !holds_customer(owner, u) ==> #[trigger] lookup(after.customers, u) == lookup(
                s.customers,
                u,
            ),
    ensures
        forall|j: int|
            0 <= j < locked_lines(e) ==> lookup(after.goods, #[trigger] goods_at(e.lines, j))
                == lookup(s.goods, goods_at(e.lines, j)),
        all_available(s.goods, e.lines, locked_lines(e)) ==> all_available(
            after.goods,
            e.lines,
            locked_lines(e),
        ),
        !(e.phase is LockingGoods) && all_available(s.goods, e.lines, e.lines.len() as int)
            ==> prices_of(after.goods, e.lines) == prices_of(s.goods, e.lines),
        !checking(e) ==> lookup(after.customers, e.user_id) == lookup(s.customers, e.user_id),
{
    assert forall|j: int| 0 <= j < locked_lines(e) implies lookup(
        after.goods,
        #[trigger] goods_at(e.lines, j),
    ) == lookup(s.goods, goods_at(e.lines, j)) by {
        let g = goods_at(e.lines, j);
        assert(holds_goods(e, g));
        assert(!(holds_goods(e, g) && holds_goods(owner, g)));
    }
    if all_available(s.goods, e.lines, locked_lines(e)) {
        assert forall|j: int| 0 <= j < locked_lines(e) implies available(
            after.goods,
            #[trigger] e.lines[j],
        ) by {
            assert(available(s.goods, e.lines[j]));
            assert(lookup(after.goods, goods_at(e.lines, j)) == lookup(s.goods, goods_at(e.lines, j)));
        }
    }
    if !(e.phase is LockingGoods) && all_available(s.goods, e.lines, e.lines.len() as int) {
        assert forall|j: int| 0 <= j < e.lines.len() implies prices_of(after.goods, e.lines)[j]
            == prices_of(s.goods, e.lines)[j] by {
            assert(available(s.goods, e.lines[j]));
            assert(lookup(after.goods, goods_at(e.lines, j)) == lookup(s.goods, goods_at(e.lines, j)));
        }
        assert(prices_of(after.goods, e.lines) =~= prices_of(s.goods, e.lines));
    }
    if !checking(e) {
        assert(holds_customer(e, e.user_id));
        assert(!(holds_customer(e, e.user_id) && holds_customer(owner, e.user_id)));
    }
}

proof fn lemma_same_map<K, V>(a: Map<K, V>, b: Map<K, V>)
    requires
        forall|k: K| lookup(a, k) == lookup(b, k),
    ensures
        a == b,
{
    assert forall|k: K| a.contains_key(k) == b.contains_key(k) by {
        assert(lookup(a, k) == lookup(b, k));
    }
    assert forall|k: K| a.contains_key(k) implies a[k] == b[k] by {
        assert(lookup(a, k) == lookup(b, k));
    }
    assert(a =~= b);
}

proof fn lemma_goods_stand(
    e: EngineState,
    w: StoreState,
    s: StoreState,
    after: StoreState,
    owner: EngineState,
    m: nat,
)
    requires
        e.wf(),
        !checking(e),
        apart(e, owner),
        all_available(s.goods, e.lines, e.lines.len() as int),
        m <= e.lines.len(),
        w.goods == debit_stock(s.goods, e.lines, m),
        forall|g: i32|
            !holds_goods(owner, g) ==> #[trigger] lookup(after.goods, g) == lookup(s.goods, g),
        forall|u: i64|
            !holds_customer(owner, u) ==> #[trigger] lookup(after.customers, u) == lookup(
                s.customers,
                u,
            ),
    ensures
        overlay(w, after, owner).goods == debit_stock(after.goods, e.lines, m),
{
    lemma_checks_stand(e, s, after, owner);
    assert forall|j: int| 0 <= j < m implies s.goods.contains_key(
        #[trigger] goods_at(e.lines, j),
    ) && lookup(s.goods, goods_at(e.lines, j)) == lookup(after.goods, goods_at(e.lines, j)) by {
        assert(available(s.goods, e.lines[j]));
    }
    lemma_debit_stock_same(s.goods, after.goods, e.lines, m);
    let left = overlay(w, after, owner).goods;
    let right = debit_stock(after.goods, e.lines, m);
    assert forall|g: i32| lookup(left, g) == lookup(right, g) by {
        if holds_goods(owner, g) {
            assert forall|j: int| 0 <= j < m implies goods_at(e.lines, j) != g by {
                if goods_at(e.lines, j) == g {
                    assert(holds_goods(e, g));
                    assert(!(holds_goods(e, g) && holds_goods(owner, g)));
                }
            }
            lemma_debit_stock_frame(after.goods, e.lines, m, g);
        } else {
            assert(lookup(after.goods, g) == lookup(s.goods, g));
            assert(lookup(debit_stock(s.goods, e.lines, m), g) == lookup(right, g));
        }
    }
    lemma_same_map(left, right);
}

proof fn lemma_customers_stand(
    e: EngineState,
    w: StoreState,
    s: StoreState,
    after: StoreState,
    owner: EngineState,
    paid_up: bool,
)
    requires
        e.wf(),
        !checking(e),
        apart(e, owner),
        s.customers.contains_key(e.user_id),
        forall|u: i64|
            !holds_customer(owner, u) ==> #[trigger] lookup(after.customers, u) == lookup(
                s.customers,
                u,
            ),
        if paid_up {
            s.customers[e.user_id].difference(e.total) is Some && w.customers
                == s.customers.insert(e.user_id, s.customers[e.user_id].difference(e.total)->0)
        } else {
            w.customers == s.customers
        },
    ensures
        after.customers.contains_key(e.user_id),
        after.customers[e.user_id] == s.customers[e.user_id],
        overlay(w, after, owner).customers == if paid_up {
            after.customers.insert(e.user_id, s.customers[e.user_id].difference(e.total)->0)
        } else {
            after.customers
        },
{
    assert(holds_customer(e, e.user_id));
    assert(!(holds_customer(e, e.user_id) && holds_customer(owner, e.user_id)));
    assert(lookup(after.customers, e.user_id) == lookup(s.customers, e.user_id));
    let left = overlay(w, after, owner).customers;
    let right = if paid_up {
        after.customers.insert(e.user_id, s.customers[e.user_id].difference(e.total)->0)
    } else {
        after.customers
    };
    assert forall|u: i64| lookup(left, u) == lookup(right, u) by {
        if !holds_customer(owner, u) {
            assert(lookup(after.customers, u) == lookup(s.customers, u));
        }
    }
    lemma_same_map(left, right);
}

proof fn lemma_ledger_stands(
    e: EngineState,
    w: StoreState,
    s: StoreState,
    after: StoreState,
    owner: EngineState,
    m: nat,
)
    requires
        e.wf(),
        !checking(e),
        apart(e, owner),
        m <= e.lines.len(),
        book(s.ledger, e.user_id, e.month, e.lines, e.subtotals, m) == Some(w.ledger),
        forall|k: LedgerKey|
            !holds_customer(owner, k.user_id) ==> #[trigger] lookup(after.ledger, k) == lookup(
                s.ledger,
                k,
            ),
    ensures
        book(after.ledger, e.user_id, e.month, e.lines, e.subtotals, m) == Some(
            overlay(w, after, owner).ledger,
        ),
        overlay(w, after, owner).ledger.contains_key(e.key()) == w.ledger.contains_key(e.key()),
{
    assert(holds_customer(e, e.user_id));
    assert(!(holds_customer(e, e.user_id) && holds_customer(owner, e.user_id)));
    assert forall|k: LedgerKey| k.user_id == e.user_id implies #[trigger] lookup(s.ledger, k)
        == lookup(after.ledger, k) by {
        assert(!holds_customer(owner, k.user_id));
    }
    lemma_book_same(s.ledger, after.ledger, e.user_id, e.month, e.lines, e.subtotals, m);
    let left = overlay(w, after, owner).ledger;
    let right = book(after.ledger, e.user_id, e.month, e.lines, e.subtotals, m)->0;
    assert forall|k: LedgerKey| lookup(left, k) == lookup(right, k) by {
        if k.user_id == e.user_id {
            assert(!holds_customer(owner, k.user_id));
            assert(lookup(w.ledger, k) == lookup(right, k));
        } else {
            assert forall|j: int| 0 <= j < m implies key_of(
                e.user_id,
                e.month,
                goods_at(e.lines, j),
            ) != k by {}
            lemma_book_frame(after.ledger, e.user_id, e.month, e.lines, e.subtotals, m, k);
            lemma_book_frame(s.ledger, e.user_id, e.month, e.lines, e.subtotals, m, k);
            if !holds_customer(owner, k.user_id) {
                assert(lookup(after.ledger, k) == lookup(s.ledger, k));
            }
        }
    }
    lemma_same_map(left, right);
}

/// A purchase that is on track stays on track when another purchase commits:
/// the other held none of its rows, so all that it has checked, read and written
/// stands.
pub proof fn lemma_commit_frame(
    e: EngineState,
    w: StoreState,
    s: StoreState,
    after: StoreState,
    owner: EngineState,
)
    requires
        on_track(e, w, s),
        on_track(owner, after, s),
        apart(e, owner),
    ensures
        on_track(e, overlay(w, after, owner), after),
{
    lemma_in_step(owner, after, s);
    lemma_in_step(e, w, s);
    lemma_checks_stand(e, s, after, owner);
    let seen = overlay(w, after, owner);
    let n = e.lines.len();
    if checking(e) {
        assert(w == s);
        assert(seen == after);
        if e.phase is LockingGoods {
            assert forall|j: int| 0 <= j < e.cursor implies #[trigger] e.prices[j]
                == after.goods[e.lines[j].goods_id].price by {
                assert(available(s.goods, e.lines[j]));
                assert(lookup(after.goods, goods_at(e.lines, j)) == lookup(
                    s.goods,
                    goods_at(e.lines, j),
                ));
            }
        }
    } else {
        let debited_lines: nat = if e.phase is DebitingStock {
            e.cursor as nat
        } else {
            n
        };
        let paid_up = !(e.phase is DebitingStock || e.phase is DebitingBalance);
        lemma_goods_stand(e, w, s, after, owner, debited_lines);
        lemma_customers_stand(e, w, s, after, owner, paid_up);
        assert(cleared(e, after));
        if paid_up {
            let booked_lines: nat = if e.phase is Committing {
                n
            } else {
                e.cursor as nat
            };
            lemma_ledger_stands(e, w, s, after, owner, booked_lines);
            assert(paid(e, after, booked_lines) == Some(seen));
        } else {
            assert(w.ledger == s.ledger);
            assert forall|k: LedgerKey| lookup(seen.ledger, k) == lookup(after.ledger, k) by {
                if !holds_customer(owner, k.user_id) {
                    assert(lookup(after.ledger, k) == lookup(s.ledger, k));
                }
            }
            lemma_same_map(seen.ledger, after.ledger);
            assert(seen == StoreState {
                goods: debit_stock(after.goods, e.lines, debited_lines),
                ..after
            });
        }
    }
}

/// Serving the first `n` purchases of an order depends on those `n` alone.
pub proof fn lemma_served_prefix(
    s: StoreState,
    orders: Seq<Order>,
    one: Seq<int>,
    two: Seq<int>,
    n: nat,
)
    requires
        n <= one.len(),
        n <= two.len(),
        forall|k: int| 0 <= k < n ==> one[k] == two[k],
    ensures
        served(s, orders, one, n) == served(s, orders, two, n),
    decreases n,
{
    if n > 0 {
        lemma_served_prefix(s, orders, one, two, (n - 1) as nat);
    }
}

proof fn lemma_ended(
    f: Floor,
    s: StoreState,
    orders: Seq<Order>,
    who: int,
    result: PurchaseResult,
    committed: StoreState,
)
    requires
        orderly(f, s, orders),
        0 <= who < f.sessions.len(),
        f.sessions[who] is Some,
        (committed, result) == verdict(
            f.committed,
            orders[who].user_id,
            orders[who].month,
            orders[who].lines,
        ),
    ensures
        ({
            let ended = f.ended.push(who);
            let results = f.results.update(who, Some(result));
            &&& committed == served(s, orders, ended, ended.len())
            &&& forall|k: int|
                0 <= k < ended.len() ==> {
                    &&& 0 <= #[trigger] ended[k] < orders.len()
                    &&& results[ended[k]] == Some(served_result(s, orders, ended, k as nat))
                    &&& ended[k] == who || f.sessions[ended[k]] is None
                }
        }),
{
    let ended = f.ended.push(who);
    let results = f.results.update(who, Some(result));
    let n = f.ended.len();
    lemma_served_prefix(s, orders, ended, f.ended, n);
    assert(ended[n as int] == who);
    assert forall|k: int| 0 <= k < ended.len() implies {
        &&& 0 <= #[trigger] ended[k] < orders.len()
        &&& results[ended[k]] == Some(served_result(s, orders, ended, k as nat))
        &&& ended[k] == who || f.sessions[ended[k]] is None
    } by {
        if k < n {
            assert(ended[k] == f.ended[k]);
            assert(f.sessions[f.ended[k]] is None);
            lemma_served_prefix(s, orders, ended, f.ended, k as nat);
        }
    }
}

/// The purchase `who` can move: it is in flight and does not have to wait.
pub open spec fn can_move(f: Floor, who: int) -> bool {
    0 <= who < f.sessions.len() && f.sessions[who] is Some && !blocked(f.sessions, who)
}

proof fn lemma_moved_on(f: Floor, s: StoreState, orders: Seq<Order>, who: int)
    requires
        orderly(f, s, orders),
        can_move(f, who),
        transition(
            f.sessions[who]->0.e,
            f.sessions[who]->0.w.answer(f.sessions[who]->0.e.request()).1,
        ) is Next,
    ensures
        orderly(moved(f, who), s, orders),
{
    let session = f.sessions[who]->0;
    let e = session.e;
    assert(session_at(f.sessions, who) is Some);
    let (after, reply) = session.w.answer(e.request());
    lemma_exchange(e, session.w, f.committed);
    lemma_holdings_grow(e, reply);
    let g = moved(f, who);
    let next = transition(e, reply)->Next_0;
    assert forall|i: int|
        0 <= i < g.sessions.len() && (#[trigger] session_at(g.sessions, i)) is Some implies {
        let one = session_at(g.sessions, i)->0;
        &&& on_track(one.e, one.w, g.committed)
        &&& one.e.user_id == orders[i].user_id
        &&& one.e.month == orders[i].month
        &&& one.e.lines == orders[i].lines
    } by {
        if i != who {
            assert(session_at(f.sessions, i) is Some);
        }
    }
    assert forall|i: int, j: int|
        0 <= i < g.sessions.len() && 0 <= j < g.sessions.len() && i != j && (
        #[trigger] session_at(g.sessions, i)) is Some && (#[trigger] session_at(g.sessions, j))
            is Some implies apart(
        session_at(g.sessions, i)->0.e,
        session_at(g.sessions, j)->0.e,
    ) by {
        if i != who && j != who {
            assert(session_at(f.sessions, i) is Some);
            assert(session_at(f.sessions, j) is Some);
        } else {
            let other = if i == who {
                j
            } else {
                i
            };
            assert(session_at(f.sessions, other) is Some);
            let o = session_at(f.sessions, other)->0.e;
            assert(apart(e, o));
            assert(apart(o, e));
            assert forall|x: i32| !(holds_goods(next, x) && holds_goods(o, x)) by {
                if holds_goods(next, x) && holds_goods(o, x) {
                    assert(!(holds_goods(e, x) && holds_goods(o, x)));
                    assert(e.request() == (PurchaseAction::LockGoods { goods_id: x }));
                }
            }
            assert forall|u: i64| !(holds_customer(next, u) && holds_customer(o, u)) by {
                if holds_customer(next, u) && holds_customer(o, u) {
                    assert(!(holds_customer(e, u) && holds_customer(o, u)));
                    assert(e.request() == (PurchaseAction::LockCustomer { user_id: u }));
                }
            }
        }
    }
    assert forall|k: int| 0 <= k < g.ended.len() implies {
        &&& 0 <= #[trigger] g.ended[k] < orders.len()
        &&& g.results[g.ended[k]] == Some(served_result(s, orders, g.ended, k as nat))
        &&& g.sessions[g.ended[k]] is None
    } by {
        assert(f.sessions[f.ended[k]] is None);
    }
}

proof fn lemma_moved_out(f: Floor, s: StoreState, orders: Seq<Order>, who: int)
    requires
        orderly(f, s, orders),
        can_move(f, who),
        transition(
            f.sessions[who]->0.e,
            f.sessions[who]->0.w.answer(f.sessions[who]->0.e.request()).1,
        ) is Done,
    ensures
        orderly(moved(f, who), s, orders),
{
    let session = f.sessions[who]->0;
    let e = session.e;
    assert(session_at(f.sessions, who) is Some);
    let (after, reply) = session.w.answer(e.request());
    lemma_exchange(e, session.w, f.committed);
    lemma_in_step(e, session.w, f.committed);
    let g = moved(f, who);
    let result = transition(e, reply)->Done_0;
    let success = result == Ok::<PurchaseOutcome, PurchaseError>(PurchaseOutcome::Success);
    let committed = if success {
        after
    } else {
        f.committed
    };
    lemma_ended(f, s, orders, who, result, committed);
    if success {
        assert(after == session.w);
        assert(g.committed == after);
    }
    assert forall|i: int|
        0 <= i < g.sessions.len() && (#[trigger] session_at(g.sessions, i)) is Some implies {
        let one = session_at(g.sessions, i)->0;
        &&& on_track(one.e, one.w, g.committed)
        &&& one.e.user_id == orders[i].user_id
        &&& one.e.month == orders[i].month
        &&& one.e.lines == orders[i].lines
    } by {
        assert(session_at(f.sessions, i) is Some);
        if success {
            let o = session_at(f.sessions, i)->0;
            assert(apart(o.e, e));
            lemma_commit_frame(o.e, o.w, f.committed, after, e);
        }
    }
    assert forall|i: int, j: int|
        0 <= i < g.sessions.len() && 0 <= j < g.sessions.len() && i != j && (
        #[trigger] session_at(g.sessions, i)) is Some && (#[trigger] session_at(g.sessions, j))
            is Some implies apart(
        session_at(g.sessions, i)->0.e,
        session_at(g.sessions, j)->0.e,
    ) by {
        assert(session_at(f.sessions, i) is Some);
        assert(session_at(f.sessions, j) is Some);
    }
}

/// One move keeps the floor orderly.
pub proof fn lemma_moved(f: Floor, s: StoreState, orders: Seq<Order>, who: int)
    requires
        orderly(f, s, orders),
    ensures
        orderly(moved(f, who), s, orders),
{
    if can_move(f, who) {
        let session = f.sessions[who]->0;
        if transition(session.e, session.w.answer(session.e.request()).1) is Next {
            lemma_moved_on(f, s, orders, who);
        } else {
            lemma_moved_out(f, s, orders, who);
        }
    }
}

/// The floor is orderly when it opens.
pub proof fn lemma_opened(s: StoreState, orders: Seq<Order>)
    requires
        forall|i: int| 0 <= i < orders.len() ==> (#[trigger] orders[i]).wf(),
    ensures
        orderly(opened(s, orders), s, orders),
{
    let f = opened(s, orders);
    assert forall|i: int|
        0 <= i < f.sessions.len() && (#[trigger] session_at(f.sessions, i)) is Some implies {
        let one = session_at(f.sessions, i)->0;
        &&& on_track(one.e, one.w, f.committed)
        &&& one.e.user_id == orders[i].user_id
        &&& one.e.month == orders[i].month
        &&& one.e.lines == orders[i].lines
    } by {
        assert(orders[i].wf());
    }
}

/// The floor stays orderly whatever moves are made.
pub proof fn lemma_played(f: Floor, s: StoreState, orders: Seq<Order>, schedule: Seq<int>)
    requires
        orderly(f, s, orders),
    ensures
        orderly(played(f, schedule), s, orders),
    decreases schedule.len(),
{
    if schedule.len() > 0 {
        lemma_played(f, s, orders, schedule.drop_last());
        lemma_moved(played(f, schedule.drop_last()), s, orders, schedule.last());
    }
}

/// Purchases at once are purchases in turn. However the moves of several
/// purchases fall, with every locking read waiting while another purchase holds
/// the row, the store holds at every moment what it would hold had the purchases
/// that are over been served one after the other, each alone, in the order in
/// which they ended; each of them has ended as it would have ended then; and no
/// row is held by two purchases at once.
pub proof fn purchases_at_once_are_purchases_in_turn(
    s: StoreState,
    orders: Seq<Order>,
    schedule: Seq<int>,
)
    requires
        forall|i: int| 0 <= i < orders.len() ==> (#[trigger] orders[i]).wf(),
    ensures
        ({
            let f = played(opened(s, orders), schedule);
            &&& f.committed == served(s, orders, f.ended, f.ended.len())
            &&& forall|k: int|
                0 <= k < f.ended.len() ==> {
                    &&& 0 <= #[trigger] f.ended[k] < orders.len()
                    &&& f.results[f.ended[k]] == Some(served_result(s, orders, f.ended, k as nat))
                }
            &&& forall|i: int, j: int|
                0 <= i < f.sessions.len() && 0 <= j < f.sessions.len() && i != j && (
                #[trigger] session_at(f.sessions, i)) is Some && (#[trigger] session_at(
                    f.sessions,
                    j,
                )) is Some ==> apart(session_at(f.sessions, i)->0.e, session_at(f.sessions, j)->0.e)
        }),
{
    lemma_opened(s, orders);
    lemma_played(opened(s, orders), s, orders, schedule);
}

} // verus!
