use cafehub::commands::claim_lost_item;
use cafehub::lost_items::{
    check_report, decide_claim, finish_claim, finish_report, ClaimError, ClaimOutcome, ClaimStep,
    ClaimWrite, LostItemRow, ReportError,
};
use cafehub::models::{ClaimLostItemData, Date, ReportLostItemData};
use cafehub::store::{MemoryStore, WriteResult};

fn today() -> Date {
    Date { year: 2024, month: 5, day: 17 }
}

fn unclaimed() -> LostItemRow {
    LostItemRow { status: 0, claim_user_id: None, claim_time: None }
}

fn claim_of(item_id: i64, claim_user_id: i64) -> ClaimLostItemData {
    ClaimLostItemData { item_id, claim_user_id }
}

#[test]
fn unclaimed_item_is_written_to() {
    assert_eq!(
        decide_claim(claim_of(4, 9), today(), Some(0)),
        ClaimStep::Write(ClaimWrite { item_id: 4, claim_user_id: 9, claim_time: today() })
    );
}

#[test]
fn claimed_item_is_reported_as_such() {
    assert_eq!(
        decide_claim(claim_of(4, 9), today(), Some(1)),
        ClaimStep::Done(Ok(ClaimOutcome::AlreadyClaimed))
    );
}

#[test]
fn missing_item_is_reported_as_such() {
    assert_eq!(
        decide_claim(claim_of(4, 9), today(), None),
        ClaimStep::Done(Ok(ClaimOutcome::NotFound))
    );
}

#[test]
fn unknown_status_is_an_error() {
    assert_eq!(
        decide_claim(claim_of(4, 9), today(), Some(2)),
        ClaimStep::Done(Err(ClaimError::UnknownStatus { status: 2 }))
    );
    assert_eq!(
        decide_claim(claim_of(4, 9), today(), Some(-1)),
        ClaimStep::Done(Err(ClaimError::UnknownStatus { status: -1 }))
    );
}

#[test]
fn a_claim_write_that_changes_no_row_lost_the_race() {
    assert_eq!(finish_claim(WriteResult::Written { rows: 1 }), Ok(ClaimOutcome::Claimed));
    assert_eq!(finish_claim(WriteResult::Written { rows: 0 }), Ok(ClaimOutcome::Conflict));
    assert_eq!(finish_claim(WriteResult::Failed), Err(ClaimError::StoreFailure));
    assert_eq!(finish_claim(WriteResult::UniqueViolation), Err(ClaimError::StoreFailure));
}

#[test]
fn claim_records_claimant_and_day() {
    let mut store = MemoryStore::new();
    store.put_lost_item(4, unclaimed());
    assert_eq!(claim_lost_item(claim_of(4, 9), today(), &mut store), Ok(ClaimOutcome::Claimed));
    assert_eq!(
        store.lost_item(4),
        Some(LostItemRow { status: 1, claim_user_id: Some(9), claim_time: Some(today()) })
    );
}

#[test]
fn second_claim_finds_the_item_claimed_and_changes_nothing() {
    let mut store = MemoryStore::new();
    store.put_lost_item(4, unclaimed());
    assert_eq!(claim_lost_item(claim_of(4, 9), today(), &mut store), Ok(ClaimOutcome::Claimed));
    let later = Date { year: 2024, month: 5, day: 18 };
    assert_eq!(
        claim_lost_item(claim_of(4, 10), later, &mut store),
        Ok(ClaimOutcome::AlreadyClaimed)
    );
    assert_eq!(
        store.lost_item(4),
        Some(LostItemRow { status: 1, claim_user_id: Some(9), claim_time: Some(today()) })
    );
}

#[test]
fn claim_of_a_missing_item_changes_nothing() {
    let mut store = MemoryStore::new();
    store.put_lost_item(4, unclaimed());
    assert_eq!(claim_lost_item(claim_of(5, 9), today(), &mut store), Ok(ClaimOutcome::NotFound));
    assert_eq!(store.lost_item(4), Some(unclaimed()));
    assert_eq!(store.lost_item(5), None);
}

#[test]
fn claim_of_an_item_in_an_unknown_state_is_an_error() {
    let mut store = MemoryStore::new();
    store.put_lost_item(4, LostItemRow { status: 3, claim_user_id: None, claim_time: None });
    assert_eq!(
        claim_lost_item(claim_of(4, 9), today(), &mut store),
        Err(ClaimError::UnknownStatus { status: 3 })
    );
}

fn write_of(step: ClaimStep) -> ClaimWrite {
    match step {
        ClaimStep::Write(write) => write,
        ClaimStep::Done(result) => panic!("no write: {:?}", result),
    }
}

#[test]
fn of_two_claimants_who_both_read_unclaimed_one_wins() {
    let mut store = MemoryStore::new();
    store.put_lost_item(4, unclaimed());
    let status = store.lost_item(4).map(|row| row.status);
    let first = write_of(decide_claim(claim_of(4, 9), today(), status));
    let second = write_of(decide_claim(claim_of(4, 10), today(), status));
    let second_rows = store.write_claim(second);
    let first_rows = store.write_claim(first);
    assert_eq!(
        finish_claim(WriteResult::Written { rows: second_rows }),
        Ok(ClaimOutcome::Claimed)
    );
    assert_eq!(
        finish_claim(WriteResult::Written { rows: first_rows }),
        Ok(ClaimOutcome::Conflict)
    );
    assert_eq!(store.lost_item(4).unwrap().claim_user_id, Some(10));
}

#[test]
fn of_three_claimants_in_any_order_exactly_one_wins() {
    let schedules: [[usize; 6]; 5] = [
        [0, 0, 1, 1, 2, 2],
        [0, 1, 2, 0, 1, 2],
        [0, 1, 2, 2, 1, 0],
        [2, 0, 0, 1, 2, 1],
        [1, 2, 1, 0, 0, 2],
    ];
    for schedule in schedules.iter() {
        let mut store = MemoryStore::new();
        store.put_lost_item(4, unclaimed());
        let mut pending: [Option<ClaimWrite>; 3] = [None, None, None];
        let mut results: [Option<Result<ClaimOutcome, ClaimError>>; 3] = [None, None, None];
        for &who in schedule.iter() {
            if results[who].is_some() {
                continue;
            }
            match pending[who].take() {
                Some(write) => {
                    let rows = store.write_claim(write);
                    results[who] = Some(finish_claim(WriteResult::Written { rows }));
                }
                None => {
                    let status = store.lost_item(4).map(|row| row.status);
                    match decide_claim(claim_of(4, 100 + who as i64), today(), status) {
                        ClaimStep::Write(write) => pending[who] = Some(write),
                        ClaimStep::Done(result) => results[who] = Some(result),
                    }
                }
            }
        }
        let winners = results.iter().filter(|r| **r == Some(Ok(ClaimOutcome::Claimed))).count();
        let losers = results
            .iter()
            .filter(|r| {
                **r == Some(Ok(ClaimOutcome::AlreadyClaimed))
                    || **r == Some(Ok(ClaimOutcome::Conflict))
            })
            .count();
        assert_eq!(winners, 1);
        assert_eq!(losers, 2);
    }
}

#[test]
fn report_needs_a_name() {
    let nameless =
        ReportLostItemData { item_name: String::new(), pick_place: None, pick_user_id: None };
    assert_eq!(check_report(&nameless), Err(ReportError::EmptyName));
    let umbrella = ReportLostItemData {
        item_name: "umbrella".to_string(),
        pick_place: Some("hall".to_string()),
        pick_user_id: Some(3),
    };
    assert_eq!(check_report(&umbrella), Ok(unclaimed()));
    assert_eq!(finish_report(WriteResult::Written { rows: 1 }), Ok(()));
    assert_eq!(finish_report(WriteResult::Failed), Err(ReportError::StoreFailure));
}
