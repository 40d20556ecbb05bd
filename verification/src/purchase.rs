use crate::amount::Amount;
use crate::cart::{check_cart, checked, distinct_goods, positive_quantities, CartError, CartLine};
use crate::models::{Month, PurchaseGoodsData};
use crate::pricing::{price_cart, priced, Priced};
use crate::table::Key;
use vstd::prelude::*;

verus! {

/// What a ledger entry is kept under: an account, a month and a goods item.
#[derive(Clone, Copy, Debug, PartialEq, Eq, Structural)]
pub struct LedgerKey {
    pub user_id: i64,
    pub month: Month,
    pub goods_id: i32,
}

impl Key for LedgerKey {
    fn same(&self, other: &Self) -> (r: bool) {
        *self == *other
    }
}

/// How a well-formed purchase request ended, as far as the rules of the venue decide it.
#[derive(Clone, Copy, Debug, PartialEq, Eq, Structural)]
pub enum PurchaseOutcome {
    /// Stock, balance and ledger were changed and the change was committed.
    Success,
    /// A line asks for more units than are in stock. Nothing was changed.
    InsufficientStock,
    /// The cart costs more than the customer's balance. Nothing was changed.
    InsufficientBalance,
}

impl PurchaseOutcome {
    /// The number under which callers know the outcome.
    pub open spec fn spec_code(self) -> i32 {
        match self {
            PurchaseOutcome::Success => 0,
            PurchaseOutcome::InsufficientStock => 1,
            PurchaseOutcome::InsufficientBalance => 2,
        }
    }

    /// The number under which callers know the outcome.
    #[verifier::when_used_as_spec(spec_code)]
    pub fn code(self) -> (r: i32)
        ensures
            r == self.spec_code(),
    {
        match self {
            PurchaseOutcome::Success => 0,
            PurchaseOutcome::InsufficientStock => 1,
            PurchaseOutcome::InsufficientBalance => 2,
        }
    }
}

/// Why a purchase was given up. Whatever the reason, nothing was changed.
#[derive(Clone, Copy, Debug, PartialEq, Eq, Structural)]
pub enum PurchaseError {
    /// The store has no goods item of this number.
    GoodsNotFound { goods_id: i32 },
    /// The store has no customer account of this number.
    CustomerNotFound { user_id: i64 },
    /// A subtotal or the total cannot be computed exactly.
    AmountOverflow,
    /// A write that had to change one row changed none, or several.
    ConcurrentModification,
    /// The store reported a failure.
    StoreFailure,
    /// The store answered something that was not asked.
    UnexpectedReply,
}

/// How a purchase ended.
pub type PurchaseResult = Result<PurchaseOutcome, PurchaseError>;

/// What the engine asks of the store next. All requests of one purchase belong to
/// one transaction of the store.
#[derive(Clone, Copy, Debug)]
pub enum PurchaseAction {
    /// Read price and stock of the goods item and lock its row.
    LockGoods { goods_id: i32 },
    /// Read the balance of the customer account and lock its row.
    LockCustomer { user_id: i64 },
    /// Take `quantity` units from the stock of the goods item.
    DebitStock { goods_id: i32, quantity: i32 },
    /// Take `amount` from the balance of the account.
    DebitBalance { user_id: i64, amount: Amount },
    /// Look for the ledger entry and lock its row.
    LockLedger { key: LedgerKey },
    /// Add `amount` to the ledger entry, which exists.
    AddToLedger { key: LedgerKey, amount: Amount },
    /// Create the ledger entry with `amount`.
    InsertLedger { key: LedgerKey, amount: Amount },
    /// Commit the transaction.
    Commit,
}

/// What the store answered to a request.
#[derive(Clone, Copy, Debug)]
pub enum StoreReply {
    /// The goods row that was locked.
    Goods { price: Amount, stock: Option<i32> },
    /// The customer row that was locked.
    Customer { balance: Amount },
    /// The row that was looked for exists and is locked.
    Found,
    /// The row that was looked for does not exist.
    Missing,
    /// The write went through and changed this many rows.
    Written { rows: u64 },
    /// The transaction is committed.
    Committed,
    /// The store could not do what was asked.
    Failed,
}

/// Where a purchase stands: the request that the store has yet to answer.
#[derive(Clone, Copy, Debug, PartialEq, Eq, Structural)]
pub enum Phase {
    LockingGoods,
    LockingCustomer,
    DebitingStock,
    DebitingBalance,
    LockingLedger,
    AddingToLedger,
    InsertingIntoLedger,
    Committing,
}

/// The state of a purchase in progress.
pub struct EngineState {
    pub user_id: i64,
    pub month: Month,
    /// The lines of the cart, merged by goods.
    pub lines: Seq<CartLine>,
    pub phase: Phase,
    /// The line that the pending request is about, in the phases that go line by line.
    pub cursor: int,
    /// The unit prices that were read so far, line by line.
    pub prices: Seq<Amount>,
    /// The subtotal of each line, once all prices are known.
    pub subtotals: Seq<Amount>,
    /// What the cart costs, once all prices are known.
    pub total: Amount,
}

/// The units in stock that a stock column stands for: an empty column counts as none.
pub open spec fn on_hand(stock: Option<i32>) -> int {
    match stock {
        Some(units) => units as int,
        None => 0,
    }
}

/// What a purchase is given up for when the store does not answer the question.
pub open spec fn refusal(reply: StoreReply) -> PurchaseError {
    if reply is Failed {
        PurchaseError::StoreFailure
    } else {
        PurchaseError::UnexpectedReply
    }
}

impl EngineState {
    /// The state in which a purchase of the given lines begins.
    pub open spec fn initial(user_id: i64, month: Month, lines: Seq<CartLine>) -> EngineState {
        EngineState {
            user_id,
            month,
            lines,
            phase: Phase::LockingGoods,
            cursor: 0,
            prices: Seq::empty(),
            subtotals: Seq::empty(),
            total: Amount::from_parts(0, 0),
        }
    }

    /// The phase goes through the cart line by line.
    pub open spec fn by_line(self) -> bool {
        self.phase is LockingGoods || self.phase is DebitingStock || self.phase is LockingLedger
            || self.phase is AddingToLedger || self.phase is InsertingIntoLedger
    }

    /// How many lines of the cart have passed the stock check: those before the
    /// cursor while the goods rows are locked, all of them after that. What such a
    /// line wants is in stock, so it is a number that a stock count can hold.
    pub open spec fn reserved(self) -> int {
        if self.phase is LockingGoods {
            self.cursor
        } else {
            self.lines.len() as int
        }
    }

    /// What holds of every state that a purchase can be in.
    pub open spec fn wf(self) -> bool {
        &&& self.lines.len() > 0
        &&& distinct_goods(self.lines)
        &&& positive_quantities(self.lines)
        &&& 0 <= self.cursor < self.lines.len()
        &&& !self.by_line() ==> self.cursor == 0
        &&& forall|j: int|
            0 <= j < self.reserved() ==> (#[trigger] self.lines[j]).quantity <= i32::MAX
        &&& if self.phase is LockingGoods {
            self.prices.len() == self.cursor
        } else {
            &&& self.prices.len() == self.lines.len()
            &&& priced(self.lines, self.prices) == Some(
                Priced { subtotals: self.subtotals, total: self.total },
            )
        }
    }

    /// The ledger entry that the line under the cursor is booked to.
    pub open spec fn key(self) -> LedgerKey {
        LedgerKey {
            user_id: self.user_id,
            month: self.month,
            goods_id: self.lines[self.cursor].goods_id,
        }
    }

    /// The request that the store has yet to answer.
    pub open spec fn request(self) -> PurchaseAction {
        match self.phase {
            Phase::LockingGoods => PurchaseAction::LockGoods {
                goods_id: self.lines[self.cursor].goods_id,
            },
            Phase::LockingCustomer => PurchaseAction::LockCustomer { user_id: self.user_id },
            Phase::DebitingStock => PurchaseAction::DebitStock {
                goods_id: self.lines[self.cursor].goods_id,
                quantity: self.lines[self.cursor].quantity as i32,
            },
            Phase::DebitingBalance => PurchaseAction::DebitBalance {
                user_id: self.user_id,
                amount: self.total,
            },
            Phase::LockingLedger => PurchaseAction::LockLedger { key: self.key() },
            Phase::AddingToLedger => PurchaseAction::AddToLedger {
                key: self.key(),
                amount: self.subtotals[self.cursor],
            },
            Phase::InsertingIntoLedger => PurchaseAction::InsertLedger {
                key: self.key(),
                amount: self.subtotals[self.cursor],
            },
            Phase::Committing => PurchaseAction::Commit,
        }
    }

    /// How many requests are still to come at most, the pending one included.
    pub open spec fn remaining(self) -> int {
        let n = self.lines.len() as int;
        match self.phase {
            Phase::LockingGoods => 4 * n + 3 - self.cursor,
            Phase::LockingCustomer => 3 * n + 3,
            Phase::DebitingStock => 3 * n + 2 - self.cursor,
            Phase::DebitingBalance => 2 * n + 2,
            Phase::LockingLedger => 2 * n + 1 - 2 * self.cursor,
            Phase::AddingToLedger => 2 * n - 2 * self.cursor,
            Phase::InsertingIntoLedger => 2 * n - 2 * self.cursor,
            Phase::Committing => 1,
        }
    }

    /// The same purchase in another phase, at another line.
    pub open spec fn at(self, phase: Phase, cursor: int) -> EngineState {
        EngineState { phase, cursor, ..self }
    }

    /// The state after the write for the line under the cursor went through, in a
    /// phase that goes line by line: the same phase at the next line, or `then` at
    /// the first line when this was the last.
    pub open spec fn next_line(self, same: Phase, then: Phase) -> EngineState {
        if self.cursor + 1 < self.lines.len() {
            self.at(same, self.cursor + 1)
        } else {
            self.at(then, 0)
        }
    }
}

/// What follows a reply: the next state, or the end of the purchase.
pub enum Transition {
    Next(EngineState),
    Done(PurchaseResult),
}

/// What follows when a write that had to change one row is answered.
pub open spec fn after_write(reply: StoreReply, next: EngineState) -> Transition {
    match reply {
        StoreReply::Written { rows } => if rows == 1 {
            Transition::Next(next)
        } else {
            Transition::Done(Err(PurchaseError::ConcurrentModification))
        },
        _ => Transition::Done(Err(refusal(reply))),
    }
}

/// The rules of a purchase: what follows from a state and the store's reply to the
/// request that was pending in it.
///
/// All goods rows are locked in the order of the cart, each checked against the
/// quantity wanted as soon as it is locked; then the cart is priced; then the
/// customer row is locked and the balance checked. Only then are stock and
/// balance debited and the ledger entries written, and the whole committed. A
/// purchase that ends with anything but success has to be rolled back.
pub open spec fn transition(s: EngineState, reply: StoreReply) -> Transition {
    match s.phase {
        Phase::LockingGoods => match reply {
            StoreReply::Goods { price, stock } => if on_hand(stock) < s.lines[s.cursor].quantity {
                Transition::Done(Ok(PurchaseOutcome::InsufficientStock))
            } else if s.cursor + 1 < s.lines.len() {
                Transition::Next(
                    EngineState { cursor: s.cursor + 1, prices: s.prices.push(price), ..s },
                )
            } else {
                match priced(s.lines, s.prices.push(price)) {
                    Some(p) => Transition::Next(
                        EngineState {
                            phase: Phase::LockingCustomer,
                            cursor: 0,
                            prices: s.prices.push(price),
                            subtotals: p.subtotals,
                            total: p.total,
                            ..s
                        },
                    ),
                    None => Transition::Done(Err(PurchaseError::AmountOverflow)),
                }
            },
            StoreReply::Missing => Transition::Done(
                Err(PurchaseError::GoodsNotFound { goods_id: s.lines[s.cursor].goods_id }),
            ),
            _ => Transition::Done(Err(refusal(reply))),
        },
        Phase::LockingCustomer => match reply {
            StoreReply::Customer { balance } => if balance@ < s.total@ {
                Transition::Done(Ok(PurchaseOutcome::InsufficientBalance))
            } else {
                Transition::Next(s.at(Phase::DebitingStock, 0))
            },
            StoreReply::Missing => Transition::Done(
                Err(PurchaseError::CustomerNotFound { user_id: s.user_id }),
            ),
            _ => Transition::Done(Err(refusal(reply))),
        },
        Phase::DebitingStock => after_write(
            reply,
            s.next_line(Phase::DebitingStock, Phase::DebitingBalance),
        ),
        Phase::DebitingBalance => after_write(reply, s.at(Phase::LockingLedger, 0)),
        Phase::LockingLedger => match reply {
            StoreReply::Found => Transition::Next(s.at(Phase::AddingToLedger, s.cursor)),
            StoreReply::Missing => Transition::Next(s.at(Phase::InsertingIntoLedger, s.cursor)),
            _ => Transition::Done(Err(refusal(reply))),
        },
        Phase::AddingToLedger => after_write(
            reply,
            s.next_line(Phase::LockingLedger, Phase::Committing),
        ),
        Phase::InsertingIntoLedger => after_write(
            reply,
            s.next_line(Phase::LockingLedger, Phase::Committing),
        ),
        Phase::Committing => match reply {
            StoreReply::Committed => Transition::Done(Ok(PurchaseOutcome::Success)),
            _ => Transition::Done(Err(refusal(reply))),
        },
    }
}

/// Every transition leads to a well-formed state that is nearer to the end.
pub proof fn lemma_progress(s: EngineState, reply: StoreReply)
    requires
        s.wf(),
    ensures
        transition(s, reply) matches Transition::Next(next) ==> {
            &&& next.wf()
            &&& 0 < next.remaining() < s.remaining()
            &&& next.lines == s.lines
            &&& next.user_id == s.user_id
            &&& next.month == s.month
        },
{
}

/// A purchase in progress. It decides what to ask of the store and what to make
/// of the answers; it never touches the store itself.
pub struct PurchaseEngine {
    user_id: i64,
    month: Month,
    lines: Vec<CartLine>,
    phase: Phase,
    cursor: usize,
    prices: Vec<Amount>,
    subtotals: Vec<Amount>,
    total: Amount,
}

/// What the engine says after a reply.
pub enum Step {
    /// The purchase goes on: the engine has another request.
    Next(PurchaseEngine),
    /// The purchase is over. Unless it succeeded, the transaction is to be rolled back.
    Done(PurchaseResult),
}

impl View for PurchaseEngine {
    type V = EngineState;

    closed spec fn view(&self) -> EngineState {
        EngineState {
            user_id: self.user_id,
            month: self.month,
            lines: self.lines@,
            phase: self.phase,
            cursor: self.cursor as int,
            prices: self.prices@,
            subtotals: self.subtotals@,
            total: self.total,
        }
    }
}

impl View for Step {
    type V = Transition;

    open spec fn view(&self) -> Transition {
        match self {
            Step::Next(engine) => Transition::Next(engine@),
            Step::Done(result) => Transition::Done(*result),
        }
    }
}

fn refuse(reply: StoreReply) -> (r: PurchaseError)
    ensures
        r == refusal(reply),
{
    match reply {
        StoreReply::Failed => PurchaseError::StoreFailure,
        _ => PurchaseError::UnexpectedReply,
    }
}

impl PurchaseEngine {
    /// Every engine that exists at run time is in a well-formed state.
    #[verifier::type_invariant]
    pub open spec fn inv(&self) -> bool {
        self@.wf()
    }

    /// Checks the cart and merges it by goods. A cart that passes starts a purchase
    /// whose first request locks the first goods row; the store has not been asked
    /// anything yet.
    pub fn begin(data: &PurchaseGoodsData, month: Month) -> (r: Result<PurchaseEngine, CartError>)
        ensures
            match r {
                Ok(engine) => checked(data.items@) matches Ok(lines) && engine@
                    == EngineState::initial(data.user_id, month, lines) && engine@.wf(),
                Err(e) => checked(data.items@) == Err::<Seq<CartLine>, CartError>(e),
            },
    {
        match check_cart(&data.items) {
            Ok(lines) => Ok(
                PurchaseEngine {
                    user_id: data.user_id,
                    month,
                    lines,
                    phase: Phase::LockingGoods,
                    cursor: 0,
                    prices: Vec::new(),
                    subtotals: Vec::new(),
                    total: Amount::zero(),
                },
            ),
            Err(e) => Err(e),
        }
    }

    /// The request that the store has yet to answer.
    pub fn request(&self) -> (r: PurchaseAction)
        ensures
            r == self@.request(),
            self@.wf(),
    {
        proof {
            use_type_invariant(self);
        }
        let line = self.lines[self.cursor];
        let key = LedgerKey { user_id: self.user_id, month: self.month, goods_id: line.goods_id };
        match self.phase {
            Phase::LockingGoods => PurchaseAction::LockGoods { goods_id: line.goods_id },
            Phase::LockingCustomer => PurchaseAction::LockCustomer { user_id: self.user_id },
            Phase::DebitingStock => {
                assert(0 < line.quantity <= i32::MAX);
                PurchaseAction::DebitStock { goods_id: line.goods_id, quantity: line.quantity as i32 }
            },
            Phase::DebitingBalance => PurchaseAction::DebitBalance {
                user_id: self.user_id,
                amount: self.total,
            },
            Phase::LockingLedger => PurchaseAction::LockLedger { key },
            Phase::AddingToLedger => {
                proof {
                    crate::pricing::lemma_priced(self.lines@, self.prices@);
                }
                PurchaseAction::AddToLedger { key, amount: self.subtotals[self.cursor] }
            },
            Phase::InsertingIntoLedger => {
                proof {
                    crate::pricing::lemma_priced(self.lines@, self.prices@);
                }
                PurchaseAction::InsertLedger { key, amount: self.subtotals[self.cursor] }
            },
            Phase::Committing => PurchaseAction::Commit,
        }
    }

    /// Takes the store's reply to the pending request and decides how the purchase
    /// goes on.
    pub fn advance(self, reply: StoreReply) -> (r: Step)
        ensures
            r@ == transition(self@, reply),
    {
        proof {
            use_type_invariant(&self);
            lemma_progress(self@, reply);
        }
        let PurchaseEngine { user_id, month, lines, phase, cursor, prices, subtotals, total } =
            self;
        let mut prices = prices;
        assert(cursor < lines.len());
        let last: bool = cursor + 1 >= lines.len();
        match phase {
            Phase::LockingGoods => match reply {
                StoreReply::Goods { price, stock } => {
                    let in_stock: i32 = match stock {
                        Some(units) => units,
                        None => 0,
                    };
                    if (in_stock as i64) < lines[cursor].quantity {
                        Step::Done(Ok(PurchaseOutcome::InsufficientStock))
                    } else {
                        prices.push(price);
                        if !last {
                            Step::Next(
                                PurchaseEngine {
                                    user_id,
                                    month,
                                    lines,
                                    phase,
                                    cursor: cursor + 1,
                                    prices,
                                    subtotals,
                                    total,
                                },
                            )
                        } else {
                            match price_cart(&lines, &prices) {
                                Some((subtotals, total)) => Step::Next(
                                    PurchaseEngine {
                                        user_id,
                                        month,
                                        lines,
                                        phase: Phase::LockingCustomer,
                                        cursor: 0,
                                        prices,
                                        subtotals,
                                        total,
                                    },
                                ),
                                None => Step::Done(Err(PurchaseError::AmountOverflow)),
                            }
                        }
                    }
                },
                StoreReply::Missing => Step::Done(
                    Err(PurchaseError::GoodsNotFound { goods_id: lines[cursor].goods_id }),
                ),
                _ => Step::Done(Err(refuse(reply))),
            },
            Phase::LockingCustomer => match reply {
                StoreReply::Customer { balance } => {
                    if balance.less_than(total) {
                        Step::Done(Ok(PurchaseOutcome::InsufficientBalance))
                    } else {
                        Step::Next(
                            PurchaseEngine {
                                user_id,
                                month,
                                lines,
                                phase: Phase::DebitingStock,
                                cursor: 0,
                                prices,
                                subtotals,
                                total,
                            },
                        )
                    }
                },
                StoreReply::Missing => Step::Done(Err(PurchaseError::CustomerNotFound { user_id })),
                _ => Step::Done(Err(refuse(reply))),
            },
            Phase::LockingLedger => match reply {
                StoreReply::Found => Step::Next(
                    PurchaseEngine {
                        user_id,
                        month,
                        lines,
                        phase: Phase::AddingToLedger,
                        cursor,
                        prices,
                        subtotals,
                        total,
                    },
                ),
                StoreReply::Missing => Step::Next(
                    PurchaseEngine {
                        user_id,
                        month,
                        lines,
                        phase: Phase::InsertingIntoLedger,
                        cursor,
                        prices,
                        subtotals,
                        total,
                    },
                ),
                _ => Step::Done(Err(refuse(reply))),
            },
            Phase::Committing => match reply {
                StoreReply::Committed => Step::Done(Ok(PurchaseOutcome::Success)),
                _ => Step::Done(Err(refuse(reply))),
            },
            _ => match reply {
                StoreReply::Written { rows } => {
                    if rows != 1 {
                        Step::Done(Err(PurchaseError::ConcurrentModification))
                    } else {
                        let (phase, cursor): (Phase, usize) = match phase {
                            Phase::DebitingStock => if last {
                                (Phase::DebitingBalance, 0)
                            } else {
                                (Phase::DebitingStock, cursor + 1)
                            },
                            Phase::DebitingBalance => (Phase::LockingLedger, 0),
                            _ => if last {
                                (Phase::Committing, 0)
                            } else {
                                (Phase::LockingLedger, cursor + 1)
                            },
                        };
                        Step::Next(
                            PurchaseEngine {
                                user_id,
                                month,
                                lines,
                                phase,
                                cursor,
                                prices,
                                subtotals,
                                total,
                            },
                        )
                    }
                },
                _ => Step::Done(Err(refuse(reply))),
            },
        }
    }
}

} // verus!
