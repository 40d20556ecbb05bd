use crate::models::{
    ClaimLostItemData, Date, ReportLostItemData, STATUS_CLAIMED, STATUS_UNCLAIMED,
};
use crate::store::{StoreState, WriteResult};
use crate::table::lookup;
use vstd::prelude::*;

verus! {

/// What the store keeps of a lost item, as far as a claim reads and writes it.
#[derive(Clone, Copy, Debug, PartialEq, Eq, Structural)]
pub struct LostItemRow {
    pub status: i8,
    pub claim_user_id: Option<i64>,
    pub claim_time: Option<Date>,
}

/// How a claim ended.
#[derive(Clone, Copy, Debug, PartialEq, Eq, Structural)]
pub enum ClaimOutcome {
    /// The item now belongs to the claimant.
    Claimed,
    /// The item had been claimed before.
    AlreadyClaimed,
    /// There is no item of that number.
    NotFound,
    /// The item was unclaimed when it was read and no longer so when it was
    /// written: another claimant was faster.
    Conflict,
}

/// Why a claim was given up.
#[derive(Clone, Copy, Debug, PartialEq, Eq, Structural)]
pub enum ClaimError {
    /// The item carries a status that is neither unclaimed nor claimed.
    UnknownStatus { status: i8 },
    /// The store reported a failure.
    StoreFailure,
}

/// How a claim ended.
pub type ClaimResult = Result<ClaimOutcome, ClaimError>;

/// The one write of a claim: set status, claimant and day of the item, on the
/// condition that the item is unclaimed at the moment of the write.
#[derive(Clone, Copy, Debug, PartialEq, Eq, Structural)]
pub struct ClaimWrite {
    pub item_id: i64,
    pub claim_user_id: i64,
    pub claim_time: Date,
}

/// What follows once the status of the item has been read.
#[derive(Clone, Copy, Debug, PartialEq, Eq)]
pub enum ClaimStep {
    Write(ClaimWrite),
    Done(ClaimResult),
}

/// Why a report of a lost item was turned away.
#[derive(Clone, Copy, Debug, PartialEq, Eq, Structural)]
pub enum ReportError {
    EmptyName,
    /// The store reported a failure.
    StoreFailure,
}

/// The row that a report creates: the item is unclaimed and nobody has claimed it.
pub open spec fn reported() -> LostItemRow {
    LostItemRow { status: STATUS_UNCLAIMED, claim_user_id: None, claim_time: None }
}

/// The row that a report creates, or what is wrong with the report: an item needs
/// a name.
pub open spec fn report_row(data: ReportLostItemData) -> Result<LostItemRow, ReportError> {
    if data.item_name@.len() == 0 {
        Err(ReportError::EmptyName)
    } else {
        Ok(reported())
    }
}

/// Checks the report of a lost item and gives the state in which it is recorded.
pub fn check_report(data: &ReportLostItemData) -> (r: Result<LostItemRow, ReportError>)
    ensures
        r == report_row(*data),
{
    if data.item_name.as_str().is_empty() {
        Err(ReportError::EmptyName)
    } else {
        Ok(LostItemRow { status: STATUS_UNCLAIMED, claim_user_id: None, claim_time: None })
    }
}

/// How a report ends once the store has answered the insert.
pub open spec fn report_end(write: WriteResult) -> Result<(), ReportError> {
    match write {
        WriteResult::Written { rows } => Ok(()),
        _ => Err(ReportError::StoreFailure),
    }
}

/// Says how a report ended, from what the store answered to the insert.
pub fn finish_report(write: WriteResult) -> (r: Result<(), ReportError>)
    ensures
        r == report_end(write),
{
    match write {
        WriteResult::Written { rows } => Ok(()),
        _ => Err(ReportError::StoreFailure),
    }
}

/// The row that a claim leaves.
pub open spec fn claimed(write: ClaimWrite) -> LostItemRow {
    LostItemRow {
        status: STATUS_CLAIMED,
        claim_user_id: Some(write.claim_user_id),
        claim_time: Some(write.claim_time),
    }
}

/// What follows from the status that was read: an unclaimed item is written to, a
/// claimed one and a missing one end the claim.
pub open spec fn claim_step(data: ClaimLostItemData, today: Date, status: Option<i8>) -> ClaimStep {
    match status {
        Some(status) => if status == STATUS_UNCLAIMED {
            ClaimStep::Write(
                ClaimWrite {
                    item_id: data.item_id,
                    claim_user_id: data.claim_user_id,
                    claim_time: today,
                },
            )
        } else if status == STATUS_CLAIMED {
            ClaimStep::Done(Ok(ClaimOutcome::AlreadyClaimed))
        } else {
            ClaimStep::Done(Err(ClaimError::UnknownStatus { status }))
        },
        None => ClaimStep::Done(Ok(ClaimOutcome::NotFound)),
    }
}

/// How a claim ends once the store has answered the write: a write that changed
/// no row lost against another claimant.
pub open spec fn claim_end(write: WriteResult) -> ClaimResult {
    match write {
        WriteResult::Written { rows } => if rows > 0 {
            Ok(ClaimOutcome::Claimed)
        } else {
            Ok(ClaimOutcome::Conflict)
        },
        _ => Err(ClaimError::StoreFailure),
    }
}

/// Decides what follows from the status of the item, `None` where the store has no
/// such item.
pub fn decide_claim(data: ClaimLostItemData, today: Date, status: Option<i8>) -> (r: ClaimStep)
    ensures
        r == claim_step(data, today, status),
{
    match status {
        Some(status) => {
            if status == STATUS_UNCLAIMED {
                ClaimStep::Write(
                    ClaimWrite {
                        item_id: data.item_id,
                        claim_user_id: data.claim_user_id,
                        claim_time: today,
                    },
                )
            } else if status == STATUS_CLAIMED {
                ClaimStep::Done(Ok(ClaimOutcome::AlreadyClaimed))
            } else {
                ClaimStep::Done(Err(ClaimError::UnknownStatus { status }))
            }
        },
        None => ClaimStep::Done(Ok(ClaimOutcome::NotFound)),
    }
}

/// Says how a claim ended, from what the store answered to its write.
pub fn finish_claim(write: WriteResult) -> (r: ClaimResult)
    ensures
        r == claim_end(write),
{
    match write {
        WriteResult::Written { rows } => {
            if rows > 0 {
                Ok(ClaimOutcome::Claimed)
            } else {
                Ok(ClaimOutcome::Conflict)
            }
        },
        _ => Err(ClaimError::StoreFailure),
    }
}

/// What becomes of a claim that has the store to itself, and of the store.
pub open spec fn claim(s: StoreState, data: ClaimLostItemData, today: Date) -> (
    StoreState,
    ClaimResult,
) {
    match lookup(s.lost_items, data.item_id) {
        Some(row) => match claim_step(data, today, Some(row.status)) {
            ClaimStep::Write(write) => (
                s.claim(write).0,
                claim_end(WriteResult::Written { rows: s.claim(write).1 }),
            ),
            ClaimStep::Done(result) => (s, result),
        },
        None => (s, Ok(ClaimOutcome::NotFound)),
    }
}

/// Where one claimant stands.
pub enum Attempt {
    /// The status of the item has yet to be read.
    Reading,
    /// The item was read as unclaimed; the write has yet to be made.
    Writing(ClaimWrite),
    /// The claim is over.
    Over(ClaimResult),
}

/// One move of one claimant against the store: the read, or the write.
pub open spec fn attempt_move(s: StoreState, attempt: Attempt, data: ClaimLostItemData, today: Date) -> (
    StoreState,
    Attempt,
) {
    match attempt {
        Attempt::Reading => {
            let status = match lookup(s.lost_items, data.item_id) {
                Some(row) => Some(row.status),
                None => None,
            };
            match claim_step(data, today, status) {
                ClaimStep::Write(write) => (s, Attempt::Writing(write)),
                ClaimStep::Done(result) => (s, Attempt::Over(result)),
            }
        },
        Attempt::Writing(write) => (
            s.claim(write).0,
            Attempt::Over(claim_end(WriteResult::Written { rows: s.claim(write).1 })),
        ),
        Attempt::Over(result) => (s, attempt),
    }
}

/// Several claimants at once: `schedule` names, move by move, the claimant whose
/// turn it is. Gives the store and where each claimant stands after all moves.
pub open spec fn race(
    s: StoreState,
    attempts: Seq<Attempt>,
    claims: Seq<ClaimLostItemData>,
    today: Date,
    schedule: Seq<int>,
) -> (StoreState, Seq<Attempt>)
    decreases schedule.len(),
{
    if schedule.len() == 0 {
        (s, attempts)
    } else {
        let (before, stand) = race(s, attempts, claims, today, schedule.drop_last());
        let who = schedule.last();
        if 0 <= who < stand.len() {
            let (after, moved) = attempt_move(before, stand[who], claims[who], today);
            (after, stand.update(who, moved))
        } else {
            (before, stand)
        }
    }
}

/// The claimant is through and has the item.
pub open spec fn won(attempt: Attempt) -> bool {
    attempt == Attempt::Over(Ok(ClaimOutcome::Claimed))
}

/// The claimant is through and found the item taken, at the read or at the write.
pub open spec fn lost(attempt: Attempt) -> bool {
    attempt == Attempt::Over(Ok(ClaimOutcome::AlreadyClaimed)) || attempt == Attempt::Over(
        Ok(ClaimOutcome::Conflict),
    )
}

/// The write that a claim makes on the given day.
pub open spec fn write_of(data: ClaimLostItemData, today: Date) -> ClaimWrite {
    ClaimWrite { item_id: data.item_id, claim_user_id: data.claim_user_id, claim_time: today }
}

/// Claimant `w` has the item: that claimant has won, the item carries that
/// claimant and the day, and whoever else is through has lost.
pub open spec fn holds_item(
    s: StoreState,
    stand: Seq<Attempt>,
    claims: Seq<ClaimLostItemData>,
    today: Date,
    item_id: i64,
    w: int,
) -> bool {
    &&& 0 <= w < stand.len()
    &&& won(stand[w])
    &&& s.lost_items[item_id] == claimed(write_of(claims[w], today))
    &&& forall|i: int|
        0 <= i < stand.len() && i != w ==> (#[trigger] stand[i] is Over ==> lost(stand[i]))
}

/// What holds at every moment of a race for one item that began unclaimed: while
/// the item is unclaimed nobody is through, and once it is claimed exactly one
/// claimant has won, the item is that claimant's, and whoever else is through has
/// lost.
pub open spec fn fair(
    s: StoreState,
    stand: Seq<Attempt>,
    claims: Seq<ClaimLostItemData>,
    today: Date,
    item_id: i64,
) -> bool {
    &&& s.lost_items.contains_key(item_id)
    &&& stand.len() == claims.len()
    &&& forall|i: int|
        0 <= i < stand.len() ==> (#[trigger] stand[i] matches Attempt::Writing(write) ==> write
            == write_of(claims[i], today))
    &&& if s.lost_items[item_id].status == STATUS_UNCLAIMED {
        forall|i: int| 0 <= i < stand.len() ==> !(#[trigger] stand[i] is Over)
    } else {
        exists|w: int| #[trigger] holds_item(s, stand, claims, today, item_id, w)
    }
}

/// However the moves of several claimants of one unclaimed item fall, at most one
/// of them claims it, the item then carries that claimant and the day of the
/// claim, everyone else who gets through finds it claimed or meets a conflict, and
/// as soon as anyone is through somebody has won.
pub proof fn one_claim_wins(
    s: StoreState,
    item_id: i64,
    claims: Seq<ClaimLostItemData>,
    today: Date,
    schedule: Seq<int>,
)
    requires
        s.lost_items.contains_key(item_id),
        s.lost_items[item_id].status == STATUS_UNCLAIMED,
        forall|i: int| 0 <= i < claims.len() ==> (#[trigger] claims[i]).item_id == item_id,
    ensures
        ({
            let (after, stand) = race(
                s,
                Seq::new(claims.len(), |i: int| Attempt::Reading),
                claims,
                today,
                schedule,
            );
            &&& stand.len() == claims.len()
            &&& forall|i: int, j: int|
                0 <= i < stand.len() && 0 <= j < stand.len() && won(#[trigger] stand[i]) && won(
                    #[trigger] stand[j],
                ) ==> i == j
            &&& forall|i: int|
                0 <= i < stand.len() && won(#[trigger] stand[i]) ==> after.lost_items[item_id] == (
                LostItemRow {
                    status: STATUS_CLAIMED,
                    claim_user_id: Some(claims[i].claim_user_id),
                    claim_time: Some(today),
                })
            &&& forall|i: int|
                0 <= i < stand.len() && #[trigger] stand[i] is Over ==> won(stand[i]) || lost(
                    stand[i],
                )
            &&& (exists|i: int| 0 <= i < stand.len() && #[trigger] stand[i] is Over) ==> exists|
                w: int,
            | 0 <= w < stand.len() && won(#[trigger] stand[w])
            &&& (forall|i: int| 0 <= i < stand.len() ==> !won(#[trigger] stand[i])) ==> after == s
        }),
{
    let start = Seq::new(claims.len(), |i: int| Attempt::Reading);
    lemma_race_is_fair(s, s, item_id, start, claims, today, schedule);
    let (after, stand) = race(s, start, claims, today, schedule);
    assert(fair(after, stand, claims, today, item_id));
    if after.lost_items[item_id].status != STATUS_UNCLAIMED {
        let w = choose|w: int| #[trigger] holds_item(after, stand, claims, today, item_id, w);
        assert forall|i: int|
            0 <= i < stand.len() && i != w && #[trigger] stand[i] is Over implies lost(
            stand[i],
        ) by {}
        assert(won(stand[w]));
    }
}

proof fn lemma_race_is_fair(
    start: StoreState,
    s: StoreState,
    item_id: i64,
    attempts: Seq<Attempt>,
    claims: Seq<ClaimLostItemData>,
    today: Date,
    schedule: Seq<int>,
)
    requires
        fair(s, attempts, claims, today, item_id),
        s.lost_items[item_id].status == STATUS_UNCLAIMED ==> s == start,
        forall|i: int| 0 <= i < claims.len() ==> (#[trigger] claims[i]).item_id == item_id,
    ensures
        fair(
            race(s, attempts, claims, today, schedule).0,
            race(s, attempts, claims, today, schedule).1,
            claims,
            today,
            item_id,
        ),
        race(s, attempts, claims, today, schedule).0.lost_items[item_id].status
            == STATUS_UNCLAIMED ==> race(s, attempts, claims, today, schedule).0 == start,
    decreases schedule.len(),
{
    if schedule.len() > 0 {
        lemma_race_is_fair(start, s, item_id, attempts, claims, today, schedule.drop_last());
        let (before, stand) = race(s, attempts, claims, today, schedule.drop_last());
        let who = schedule.last();
        if 0 <= who < stand.len() {
            lemma_move_is_fair(before, item_id, stand, claims, today, who);
        }
    }
}

proof fn lemma_move_is_fair(
    s: StoreState,
    item_id: i64,
    stand: Seq<Attempt>,
    claims: Seq<ClaimLostItemData>,
    today: Date,
    who: int,
)
    requires
        fair(s, stand, claims, today, item_id),
        0 <= who < stand.len(),
        claims[who].item_id == item_id,
    ensures
        fair(
            attempt_move(s, stand[who], claims[who], today).0,
            stand.update(who, attempt_move(s, stand[who], claims[who], today).1),
            claims,
            today,
            item_id,
        ),
        attempt_move(s, stand[who], claims[who], today).0.lost_items[item_id].status
            == STATUS_UNCLAIMED ==> attempt_move(s, stand[who], claims[who], today).0 == s,
{
    let (after, moved) = attempt_move(s, stand[who], claims[who], today);
    let next = stand.update(who, moved);
    assert forall|i: int| 0 <= i < next.len() implies (#[trigger] next[i] matches Attempt::Writing(
        write,
    ) ==> write == write_of(claims[i], today)) by {
        if i != who {
            assert(next[i] == stand[i]);
        }
    }
    if s.lost_items[item_id].status == STATUS_UNCLAIMED {
        if after.lost_items[item_id].status == STATUS_UNCLAIMED {
            assert forall|i: int| 0 <= i < next.len() implies !(#[trigger] next[i] is Over) by {
                if i != who {
                    assert(next[i] == stand[i]);
                }
            }
        } else {
            assert(won(next[who]));
            assert forall|i: int| 0 <= i < next.len() && i != who implies (#[trigger] next[i] is Over
                ==> lost(next[i])) by {
                assert(next[i] == stand[i]);
            }
            assert(holds_item(after, next, claims, today, item_id, who));
        }
    } else {
        let w = choose|w: int| #[trigger] holds_item(s, stand, claims, today, item_id, w);
        assert(after == s);
        assert(next[w] == stand[w]);
        assert forall|i: int| 0 <= i < next.len() && i != w implies (#[trigger] next[i] is Over
            ==> lost(next[i])) by {
            if i != who {
                assert(next[i] == stand[i]);
            }
        }
        assert(holds_item(after, next, claims, today, item_id, w));
    }
}

} // verus!
