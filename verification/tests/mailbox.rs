use cafehub::commands::mark_message_as_read;
use cafehub::messages::{
    check_customer_message, check_message, decide_read, finish_read, finish_send,
    plan_admin_message, plan_customer_message, MessageRow, ReadError, ReadOutcome, ReadStep,
    ReadWrite, SendError, SendOutcome,
};
use cafehub::models::{CusSendMessageData, MarkReadData, SendMessageData};
use cafehub::store::{MemoryStore, WriteResult};

fn unread_for(receiver_id: i64) -> MessageRow {
    MessageRow { receiver_id, read_status: 0 }
}

fn read_for(receiver_id: i64) -> MessageRow {
    MessageRow { receiver_id, read_status: 1 }
}

fn message(message_id: i64) -> MarkReadData {
    MarkReadData { message_id }
}

#[test]
fn receiver_reads_twice_without_error() {
    let mut store = MemoryStore::new();
    store.put_message(11, unread_for(7));
    assert_eq!(mark_message_as_read(message(11), 7, &mut store), Ok(ReadOutcome::Read));
    assert_eq!(store.message(11), Some(read_for(7)));
    assert_eq!(mark_message_as_read(message(11), 7, &mut store), Ok(ReadOutcome::AlreadyRead));
    assert_eq!(store.message(11), Some(read_for(7)));
}

#[test]
fn somebody_else_is_not_authorized_and_changes_nothing() {
    let mut store = MemoryStore::new();
    store.put_message(11, unread_for(7));
    store.put_message(12, read_for(7));
    assert_eq!(mark_message_as_read(message(11), 8, &mut store), Ok(ReadOutcome::NotAuthorized));
    assert_eq!(mark_message_as_read(message(12), 8, &mut store), Ok(ReadOutcome::NotAuthorized));
    assert_eq!(store.message(11), Some(unread_for(7)));
    assert_eq!(store.message(12), Some(read_for(7)));
}

#[test]
fn unknown_message_is_an_error() {
    let mut store = MemoryStore::new();
    assert_eq!(
        mark_message_as_read(message(11), 7, &mut store),
        Err(ReadError::NotFound { message_id: 11 })
    );
}

#[test]
fn read_outcome_codes_are_the_ones_callers_know() {
    assert_eq!(ReadOutcome::Read.code(), 0);
    assert_eq!(ReadOutcome::AlreadyRead.code(), 0);
    assert_eq!(ReadOutcome::NotAuthorized.code(), 1);
}

#[test]
fn only_an_unread_message_of_the_receiver_is_written_to() {
    assert_eq!(
        decide_read(message(11), 7, Some(unread_for(7))),
        ReadStep::Write(ReadWrite { message_id: 11, receiver_id: 7 })
    );
    assert_eq!(
        decide_read(message(11), 7, Some(read_for(7))),
        ReadStep::Done(Ok(ReadOutcome::AlreadyRead))
    );
    assert_eq!(
        decide_read(message(11), 7, Some(read_for(8))),
        ReadStep::Done(Ok(ReadOutcome::NotAuthorized))
    );
    assert_eq!(
        decide_read(message(11), 7, None),
        ReadStep::Done(Err(ReadError::NotFound { message_id: 11 }))
    );
}

#[test]
fn a_read_write_that_changes_no_row_is_an_anomaly() {
    assert_eq!(finish_read(WriteResult::Written { rows: 1 }), Ok(ReadOutcome::Read));
    assert_eq!(
        finish_read(WriteResult::Written { rows: 0 }),
        Err(ReadError::ConcurrentModification)
    );
    assert_eq!(finish_read(WriteResult::Failed), Err(ReadError::StoreFailure));
}

#[test]
fn a_write_for_the_wrong_receiver_changes_no_row() {
    let mut store = MemoryStore::new();
    store.put_message(11, unread_for(7));
    assert_eq!(store.write_read(ReadWrite { message_id: 11, receiver_id: 8 }), 0);
    assert_eq!(store.write_read(ReadWrite { message_id: 12, receiver_id: 7 }), 0);
    assert_eq!(store.message(11), Some(unread_for(7)));
    assert_eq!(store.write_read(ReadWrite { message_id: 11, receiver_id: 7 }), 1);
    assert_eq!(store.message(11), Some(read_for(7)));
}

fn from_admin(sender_id: i64, receiver_id: i64, content: &str) -> SendMessageData {
    SendMessageData { sender_id, receiver_id, title: None, message_content: content.to_string() }
}

fn from_customer(sender_id: i64, content: &str) -> CusSendMessageData {
    CusSendMessageData {
        sender_id,
        title: Some("hello".to_string()),
        message_content: content.to_string(),
    }
}

#[test]
fn administrator_message_rules() {
    assert_eq!(
        plan_admin_message(&from_admin(1, 7, ""), true, true),
        Err(Err(SendError::EmptyContent))
    );
    assert_eq!(
        plan_admin_message(&from_admin(1, 1, "hi"), true, true),
        Err(Err(SendError::SelfAddressed))
    );
    assert_eq!(
        plan_admin_message(&from_admin(1, 7, "hi"), false, false),
        Err(Ok(SendOutcome::SenderNotFound))
    );
    assert_eq!(
        plan_admin_message(&from_admin(1, 7, "hi"), true, false),
        Err(Ok(SendOutcome::ReceiverNotFound))
    );
    assert_eq!(plan_admin_message(&from_admin(1, 7, "hi"), true, true), Ok(unread_for(7)));
}

#[test]
fn customer_message_rules() {
    assert_eq!(
        plan_customer_message(&from_customer(7, ""), Some(1), Some(Some(1))),
        Err(Err(SendError::EmptyContent))
    );
    assert_eq!(
        plan_customer_message(&from_customer(7, "hi"), None, None),
        Err(Ok(SendOutcome::ReceiverNotFound))
    );
    assert_eq!(
        plan_customer_message(&from_customer(7, "hi"), Some(1), None),
        Err(Ok(SendOutcome::SenderNotFound))
    );
    assert_eq!(
        plan_customer_message(&from_customer(7, "hi"), Some(1), Some(Some(0))),
        Err(Err(SendError::SenderNotACustomer { sender_id: 7 }))
    );
    assert_eq!(
        plan_customer_message(&from_customer(7, "hi"), Some(1), Some(Some(1))),
        Ok(unread_for(1))
    );
    assert_eq!(
        plan_customer_message(&from_customer(7, "hi"), Some(1), Some(None)),
        Ok(unread_for(1))
    );
}

#[test]
fn messages_are_checked_before_the_store_is_asked() {
    assert_eq!(check_message(&from_admin(1, 7, "")), Some(SendError::EmptyContent));
    assert_eq!(check_message(&from_admin(1, 1, "hi")), Some(SendError::SelfAddressed));
    assert_eq!(check_message(&from_admin(1, 7, "hi")), None);
    assert_eq!(check_customer_message(&from_customer(7, "")), Some(SendError::EmptyContent));
    assert_eq!(check_customer_message(&from_customer(7, "hi")), None);
}

#[test]
fn send_outcomes() {
    assert_eq!(finish_send(WriteResult::Written { rows: 1 }), Ok(SendOutcome::Sent));
    assert_eq!(finish_send(WriteResult::Failed), Err(SendError::StoreFailure));
    assert_eq!(SendOutcome::Sent.code(), 0);
    assert_eq!(SendOutcome::SenderNotFound.code(), 1);
    assert_eq!(SendOutcome::ReceiverNotFound.code(), 2);
}
