use crate::goods::role_of;
use crate::models::{
    CusSendMessageData, MarkReadData, SendMessageData, ROLE_CUSTOMER, STATUS_READ, STATUS_UNREAD,
};
use crate::store::{StoreState, WriteResult};
use crate::table::lookup;
use vstd::prelude::*;

verus! {

/// What the store keeps of a message, as far as marking it read goes.
#[derive(Clone, Copy, Debug, PartialEq, Eq, Structural)]
pub struct MessageRow {
    pub receiver_id: i64,
    pub read_status: i8,
}

/// How sending a message ended, as far as the rules decide it.
#[derive(Clone, Copy, Debug, PartialEq, Eq, Structural)]
pub enum SendOutcome {
    Sent,
    SenderNotFound,
    ReceiverNotFound,
}

impl SendOutcome {
    /// The number under which callers know the outcome.
    pub open spec fn spec_code(self) -> i32 {
        match self {
            SendOutcome::Sent => 0,
            SendOutcome::SenderNotFound => 1,
            SendOutcome::ReceiverNotFound => 2,
        }
    }

    /// The number under which callers know the outcome.
    #[verifier::when_used_as_spec(spec_code)]
    pub fn code(self) -> (r: i32)
        ensures
            r == self.spec_code(),
    {
        match self {
            SendOutcome::Sent => 0,
            SendOutcome::SenderNotFound => 1,
            SendOutcome::ReceiverNotFound => 2,
        }
    }
}

/// Why sending a message was given up.
#[derive(Clone, Copy, Debug, PartialEq, Eq, Structural)]
pub enum SendError {
    EmptyContent,
    /// Sender and receiver are the same account.
    SelfAddressed,
    /// Only customers write to the administrator.
    SenderNotACustomer { sender_id: i64 },
    /// The store reported a failure.
    StoreFailure,
}

/// How sending a message ended.
pub type SendResult = Result<SendOutcome, SendError>;

/// The row that sending creates: addressed to the receiver, unread.
pub open spec fn sent_to(receiver_id: i64) -> MessageRow {
    MessageRow { receiver_id, read_status: STATUS_UNREAD }
}

/// What is wrong with a message of the administrator, if anything: it needs a
/// body, and nobody writes to themselves.
pub open spec fn message_fault(data: SendMessageData) -> Option<SendError> {
    if data.message_content@.len() == 0 {
        Some(SendError::EmptyContent)
    } else if data.sender_id == data.receiver_id {
        Some(SendError::SelfAddressed)
    } else {
        None
    }
}

/// Checks a message of the administrator before anything is asked of the store.
pub fn check_message(data: &SendMessageData) -> (r: Option<SendError>)
    ensures
        r == message_fault(*data),
{
    if data.message_content.as_str().is_empty() {
        Some(SendError::EmptyContent)
    } else if data.sender_id == data.receiver_id {
        Some(SendError::SelfAddressed)
    } else {
        None
    }
}

/// Whether a message of the administrator can be recorded, from whether sender
/// and receiver exist: the row to record, or how sending ends without it. The
/// sender is looked at first.
pub open spec fn admin_message(data: SendMessageData, sender_found: bool, receiver_found: bool) -> Result<
    MessageRow,
    SendResult,
> {
    match message_fault(data) {
        Some(fault) => Err(Err(fault)),
        None => if !sender_found {
            Err(Ok(SendOutcome::SenderNotFound))
        } else if !receiver_found {
            Err(Ok(SendOutcome::ReceiverNotFound))
        } else {
            Ok(sent_to(data.receiver_id))
        },
    }
}

/// Works out the row that a message of the administrator is recorded as.
pub fn plan_admin_message(data: &SendMessageData, sender_found: bool, receiver_found: bool) -> (r:
    Result<MessageRow, SendResult>)
    ensures
        r == admin_message(*data, sender_found, receiver_found),
{
    match check_message(data) {
        Some(fault) => Err(Err(fault)),
        None => {
            if !sender_found {
                Err(Ok(SendOutcome::SenderNotFound))
            } else if !receiver_found {
                Err(Ok(SendOutcome::ReceiverNotFound))
            } else {
                Ok(MessageRow { receiver_id: data.receiver_id, read_status: STATUS_UNREAD })
            }
        },
    }
}

/// What is wrong with a message of a customer, if anything: it needs a body.
pub open spec fn customer_message_fault(data: CusSendMessageData) -> Option<SendError> {
    if data.message_content@.len() == 0 {
        Some(SendError::EmptyContent)
    } else {
        None
    }
}

/// Checks a message of a customer before anything is asked of the store.
pub fn check_customer_message(data: &CusSendMessageData) -> (r: Option<SendError>)
    ensures
        r == customer_message_fault(*data),
{
    if data.message_content.as_str().is_empty() {
        Some(SendError::EmptyContent)
    } else {
        None
    }
}

/// Whether a message of a customer to the administrator can be recorded: the row
/// to record, or how sending ends without it. `admin` is the administrator
/// account if there is one, `sender` the role column of the sender if the sender
/// exists. The administrator is looked at first.
pub open spec fn customer_message(
    data: CusSendMessageData,
    admin: Option<i64>,
    sender: Option<Option<i8>>,
) -> Result<MessageRow, SendResult> {
    match customer_message_fault(data) {
        Some(fault) => Err(Err(fault)),
        None => match admin {
            Some(admin_id) => match sender {
                Some(user_type) => if role_of(user_type) != ROLE_CUSTOMER {
                    Err(Err(SendError::SenderNotACustomer { sender_id: data.sender_id }))
                } else {
                    Ok(sent_to(admin_id))
                },
                None => Err(Ok(SendOutcome::SenderNotFound)),
            },
            None => Err(Ok(SendOutcome::ReceiverNotFound)),
        },
    }
}

/// Works out the row that a message of a customer is recorded as.
pub fn plan_customer_message(
    data: &CusSendMessageData,
    admin: Option<i64>,
    sender: Option<Option<i8>>,
) -> (r: Result<MessageRow, SendResult>)
    ensures
        r == customer_message(*data, admin, sender),
{
    match check_customer_message(data) {
        Some(fault) => {
            return Err(Err(fault));
        },
        None => {},
    }
    match admin {
        Some(admin_id) => match sender {
            Some(user_type) => {
                if crate::goods::role_or_customer(user_type) != ROLE_CUSTOMER {
                    Err(Err(SendError::SenderNotACustomer { sender_id: data.sender_id }))
                } else {
                    Ok(MessageRow { receiver_id: admin_id, read_status: STATUS_UNREAD })
                }
            },
            None => Err(Ok(SendOutcome::SenderNotFound)),
        },
        None => Err(Ok(SendOutcome::ReceiverNotFound)),
    }
}

/// How sending ends once the store has answered the insert.
pub open spec fn send_end(write: WriteResult) -> SendResult {
    match write {
        WriteResult::Written { rows } => Ok(SendOutcome::Sent),
        _ => Err(SendError::StoreFailure),
    }
}

/// Says how sending ended, from what the store answered to the insert.
pub fn finish_send(write: WriteResult) -> (r: SendResult)
    ensures
        r == send_end(write),
{
    match write {
        WriteResult::Written { rows } => Ok(SendOutcome::Sent),
        _ => Err(SendError::StoreFailure),
    }
}

/// How an attempt to mark a message read ended.
#[derive(Clone, Copy, Debug, PartialEq, Eq, Structural)]
pub enum ReadOutcome {
    /// The message went from unread to read.
    Read,
    /// The message had been read before; nothing was written.
    AlreadyRead,
    /// The account is not the receiver of the message; nothing was written.
    NotAuthorized,
}

impl ReadOutcome {
    /// The number under which callers know the outcome: reading a message twice is
    /// as good as reading it once.
    pub open spec fn spec_code(self) -> i32 {
        match self {
            ReadOutcome::Read => 0,
            ReadOutcome::AlreadyRead => 0,
            ReadOutcome::NotAuthorized => 1,
        }
    }

    /// The number under which callers know the outcome.
    #[verifier::when_used_as_spec(spec_code)]
    pub fn code(self) -> (r: i32)
        ensures
            r == self.spec_code(),
    {
        match self {
            ReadOutcome::Read => 0,
            ReadOutcome::AlreadyRead => 0,
            ReadOutcome::NotAuthorized => 1,
        }
    }
}

/// Why an attempt to mark a message read was given up.
#[derive(Clone, Copy, Debug, PartialEq, Eq, Structural)]
pub enum ReadError {
    /// There is no message of that number.
    NotFound { message_id: i64 },
    /// The write changed no row although the checks before it had passed.
    ConcurrentModification,
    /// The store reported a failure.
    StoreFailure,
}

/// How an attempt to mark a message read ended.
pub type ReadResult = Result<ReadOutcome, ReadError>;

/// The one write of marking a message read: set the status, on the condition that
/// the message is addressed to `receiver_id`.
#[derive(Clone, Copy, Debug, PartialEq, Eq, Structural)]
pub struct ReadWrite {
    pub message_id: i64,
    pub receiver_id: i64,
}

/// What follows once the message has been looked up.
#[derive(Clone, Copy, Debug, PartialEq, Eq)]
pub enum ReadStep {
    Write(ReadWrite),
    Done(ReadResult),
}

/// What follows from the row that was read: only the receiver may go on, and only
/// an unread message is written to.
pub open spec fn read_step(data: MarkReadData, current_user_id: i64, row: Option<MessageRow>) -> ReadStep {
    match row {
        Some(row) => if row.receiver_id != current_user_id {
            ReadStep::Done(Ok(ReadOutcome::NotAuthorized))
        } else if row.read_status == STATUS_READ {
            ReadStep::Done(Ok(ReadOutcome::AlreadyRead))
        } else {
            ReadStep::Write(
                ReadWrite { message_id: data.message_id, receiver_id: current_user_id },
            )
        },
        None => ReadStep::Done(Err(ReadError::NotFound { message_id: data.message_id })),
    }
}

/// How marking a message read ends once the store has answered the write.
pub open spec fn read_end(write: WriteResult) -> ReadResult {
    match write {
        WriteResult::Written { rows } => if rows > 0 {
            Ok(ReadOutcome::Read)
        } else {
            Err(ReadError::ConcurrentModification)
        },
        _ => Err(ReadError::StoreFailure),
    }
}

/// Decides what follows from the message row, `None` where the store has no such
/// message.
pub fn decide_read(data: MarkReadData, current_user_id: i64, row: Option<MessageRow>) -> (r:
    ReadStep)
    ensures
        r == read_step(data, current_user_id, row),
{
    match row {
        Some(row) => {
            if row.receiver_id != current_user_id {
                ReadStep::Done(Ok(ReadOutcome::NotAuthorized))
            } else if row.read_status == STATUS_READ {
                ReadStep::Done(Ok(ReadOutcome::AlreadyRead))
            } else {
                ReadStep::Write(
                    ReadWrite { message_id: data.message_id, receiver_id: current_user_id },
                )
            }
        },
        None => ReadStep::Done(Err(ReadError::NotFound { message_id: data.message_id })),
    }
}

/// Says how marking a message read ended, from what the store answered to the write.
pub fn finish_read(write: WriteResult) -> (r: ReadResult)
    ensures
        r == read_end(write),
{
    match write {
        WriteResult::Written { rows } => {
            if rows > 0 {
                Ok(ReadOutcome::Read)
            } else {
                Err(ReadError::ConcurrentModification)
            }
        },
        _ => Err(ReadError::StoreFailure),
    }
}

/// What becomes of an attempt to mark a message read, and of the store.
pub open spec fn mark_read(s: StoreState, data: MarkReadData, current_user_id: i64) -> (
    StoreState,
    ReadResult,
) {
    match read_step(data, current_user_id, lookup(s.messages, data.message_id)) {
        ReadStep::Write(write) => (
            s.mark_read(write).0,
            read_end(WriteResult::Written { rows: s.mark_read(write).1 }),
        ),
        ReadStep::Done(result) => (s, result),
    }
}

/// The receiver who marks an unread message read twice turns it from unread to
/// read the first time; the second time nothing is written and the answer is
/// `AlreadyRead`, which is no error.
pub proof fn reading_twice_is_harmless(s: StoreState, data: MarkReadData, current_user_id: i64)
    requires
        s.messages.contains_key(data.message_id),
        s.messages[data.message_id].receiver_id == current_user_id,
        s.messages[data.message_id].read_status != STATUS_READ,
    ensures
        ({
            let (first, answer) = mark_read(s, data, current_user_id);
            &&& answer == Ok::<ReadOutcome, ReadError>(ReadOutcome::Read)
            &&& first.messages == s.messages.insert(
                data.message_id,
                MessageRow { receiver_id: current_user_id, read_status: STATUS_READ },
            )
            &&& mark_read(first, data, current_user_id) == (
                first,
                Ok::<ReadOutcome, ReadError>(ReadOutcome::AlreadyRead),
            )
        }),
{
}

/// Whoever is not the receiver of a message gets `NotAuthorized`, whatever the
/// state of the message, and the store stays as it was.
pub proof fn only_the_receiver_marks_read(s: StoreState, data: MarkReadData, current_user_id: i64)
    requires
        s.messages.contains_key(data.message_id),
        s.messages[data.message_id].receiver_id != current_user_id,
    ensures
        mark_read(s, data, current_user_id) == (
            s,
            Ok::<ReadOutcome, ReadError>(ReadOutcome::NotAuthorized),
        ),
{
}

/// Marking a message read never touches another message, and never undoes a read.
pub proof fn marking_read_is_local(s: StoreState, data: MarkReadData, current_user_id: i64)
    ensures
        ({
            let after = mark_read(s, data, current_user_id).0;
            &&& forall|m: i64| m != data.message_id ==> lookup(after.messages, m) == lookup(s.messages, m)
            &&& after.messages.contains_key(data.message_id) == s.messages.contains_key(
                data.message_id,
            )
            &&& s.messages.contains_key(data.message_id) && s.messages[data.message_id].read_status
                == STATUS_READ ==> after == s
            &&& after.goods == s.goods && after.customers == s.customers && after.ledger
                == s.ledger && after.lost_items == s.lost_items
        }),
{
}

/// Where one reader stands.
pub enum ReadAttempt {
    /// The message has yet to be looked up.
    Reading,
    /// The message was found unread and addressed to the reader; the write has
    /// yet to be made.
    Writing(ReadWrite),
    /// The attempt is over.
    Over(ReadResult),
}

/// One move of one reader against the store: the read, or the write.
pub open spec fn read_move(s: StoreState, attempt: ReadAttempt, data: MarkReadData, reader: i64) -> (
    StoreState,
    ReadAttempt,
) {
    match attempt {
        ReadAttempt::Reading => match read_step(data, reader, lookup(s.messages, data.message_id)) {
            ReadStep::Write(write) => (s, ReadAttempt::Writing(write)),
            ReadStep::Done(result) => (s, ReadAttempt::Over(result)),
        },
        ReadAttempt::Writing(write) => (
            s.mark_read(write).0,
            ReadAttempt::Over(read_end(WriteResult::Written { rows: s.mark_read(write).1 })),
        ),
        ReadAttempt::Over(result) => (s, attempt),
    }
}

/// Several accounts at once try to mark one message read: `schedule` names, move
/// by move, the reader whose turn it is.
pub open spec fn read_race(
    s: StoreState,
    attempts: Seq<ReadAttempt>,
    readers: Seq<i64>,
    data: MarkReadData,
    schedule: Seq<int>,
) -> (StoreState, Seq<ReadAttempt>)
    decreases schedule.len(),
{
    if schedule.len() == 0 {
        (s, attempts)
    } else {
        let (before, stand) = read_race(s, attempts, readers, data, schedule.drop_last());
        let who = schedule.last();
        if 0 <= who < stand.len() {
            let (after, moved) = read_move(before, stand[who], data, readers[who]);
            (after, stand.update(who, moved))
        } else {
            (before, stand)
        }
    }
}

/// The attempt is over and the message is read.
pub open spec fn has_read(attempt: ReadAttempt) -> bool {
    attempt == ReadAttempt::Over(Ok(ReadOutcome::Read)) || attempt == ReadAttempt::Over(
        Ok(ReadOutcome::AlreadyRead),
    )
}

/// What holds at every moment while several accounts try to mark one message
/// read: apart from the status of that message the store is as it was; the
/// status has changed only from unread to read, and only where the receiver is
/// among those who wrote; the receiver who is through has read the message, and
/// whoever else is through was turned away.
pub open spec fn steady(
    start: StoreState,
    s: StoreState,
    stand: Seq<ReadAttempt>,
    readers: Seq<i64>,
    data: MarkReadData,
) -> bool {
    let id = data.message_id;
    let receiver = start.messages[id].receiver_id;
    &&& stand.len() == readers.len()
    &&& s == start || s == (StoreState {
        messages: start.messages.insert(
            id,
            MessageRow { receiver_id: receiver, read_status: STATUS_READ },
        ),
        ..start
    })
    &&& s != start ==> exists|i: int|
        0 <= i < stand.len() && readers[i] == receiver && #[trigger] stand[i] is Over
    &&& forall|i: int|
        0 <= i < stand.len() ==> match #[trigger] stand[i] {
            ReadAttempt::Reading => true,
            ReadAttempt::Writing(write) => write.message_id == id && write.receiver_id
                == receiver && readers[i] == receiver,
            ReadAttempt::Over(result) => if readers[i] == receiver {
                has_read(stand[i]) && s.messages[id].read_status == STATUS_READ
            } else {
                result == Ok::<ReadOutcome, ReadError>(ReadOutcome::NotAuthorized)
            },
        }
}

proof fn lemma_read_move_is_steady(
    start: StoreState,
    s: StoreState,
    stand: Seq<ReadAttempt>,
    readers: Seq<i64>,
    data: MarkReadData,
    who: int,
)
    requires
        start.messages.contains_key(data.message_id),
        steady(start, s, stand, readers, data),
        0 <= who < stand.len(),
    ensures
        steady(
            start,
            read_move(s, stand[who], data, readers[who]).0,
            stand.update(who, read_move(s, stand[who], data, readers[who]).1),
            readers,
            data,
        ),
{
    let id = data.message_id;
    let receiver = start.messages[id].receiver_id;
    let (after, moved) = read_move(s, stand[who], data, readers[who]);
    let next = stand.update(who, moved);
    let read = StoreState {
        messages: start.messages.insert(
            id,
            MessageRow { receiver_id: receiver, read_status: STATUS_READ },
        ),
        ..start
    };
    assert(s.messages.contains_key(id) && s.messages[id].receiver_id == receiver);
    if stand[who] is Writing {
        assert(after.messages =~= read.messages);
        assert(after == read);
    } else {
        assert(after == s);
    }
    if after != start {
        if s != start {
            let i = choose|i: int|
                0 <= i < stand.len() && readers[i] == receiver && #[trigger] stand[i] is Over;
            if i != who {
                assert(next[i] == stand[i]);
            } else {
                assert(next[who] is Over);
            }
        } else {
            assert(next[who] is Over);
        }
    }
    assert forall|i: int| 0 <= i < next.len() implies match #[trigger] next[i] {
        ReadAttempt::Reading => true,
        ReadAttempt::Writing(write) => write.message_id == id && write.receiver_id == receiver
            && readers[i] == receiver,
        ReadAttempt::Over(result) => if readers[i] == receiver {
            has_read(next[i]) && after.messages[id].read_status == STATUS_READ
        } else {
            result == Ok::<ReadOutcome, ReadError>(ReadOutcome::NotAuthorized)
        },
    } by {
        if i != who {
            assert(next[i] == stand[i]);
        }
    }
}

proof fn lemma_read_race_is_steady(
    start: StoreState,
    readers: Seq<i64>,
    data: MarkReadData,
    schedule: Seq<int>,
)
    requires
        start.messages.contains_key(data.message_id),
    ensures
        steady(
            start,
            read_race(start, Seq::new(readers.len(), |i: int| ReadAttempt::Reading), readers, data, schedule).0,
            read_race(start, Seq::new(readers.len(), |i: int| ReadAttempt::Reading), readers, data, schedule).1,
            readers,
            data,
        ),
    decreases schedule.len(),
{
    let begin = Seq::new(readers.len(), |i: int| ReadAttempt::Reading);
    if schedule.len() > 0 {
        lemma_read_race_is_steady(start, readers, data, schedule.drop_last());
        let (before, stand) = read_race(start, begin, readers, data, schedule.drop_last());
        let who = schedule.last();
        if 0 <= who < stand.len() {
            lemma_read_move_is_steady(start, before, stand, readers, data, who);
        }
    }
}

/// However the moves of several accounts that try to mark one message read fall:
/// nothing in the store changes but the status of that message, which goes from
/// unread to read at most and only if the receiver is among them; the receiver
/// who gets through has read the message, without error however often; and
/// whoever else gets through is told `NotAuthorized`.
pub proof fn reading_at_once_is_harmless(
    s: StoreState,
    readers: Seq<i64>,
    data: MarkReadData,
    schedule: Seq<int>,
)
    requires
        s.messages.contains_key(data.message_id),
    ensures
        ({
            let receiver = s.messages[data.message_id].receiver_id;
            let (after, stand) = read_race(
                s,
                Seq::new(readers.len(), |i: int| ReadAttempt::Reading),
                readers,
                data,
                schedule,
            );
            &&& stand.len() == readers.len()
            &&& after == s || after == (StoreState {
                messages: s.messages.insert(
                    data.message_id,
                    MessageRow { receiver_id: receiver, read_status: STATUS_READ },
                ),
                ..s
            })
            &&& (forall|i: int| 0 <= i < readers.len() ==> #[trigger] readers[i] != receiver)
                ==> after == s
            &&& forall|i: int|
                0 <= i < stand.len() && #[trigger] stand[i] is Over ==> if readers[i] == receiver {
                    has_read(stand[i]) && after.messages[data.message_id].read_status
                        == STATUS_READ
                } else {
                    stand[i] == ReadAttempt::Over(Ok(ReadOutcome::NotAuthorized))
                }
        }),
{
    lemma_read_race_is_steady(s, readers, data, schedule);
    let receiver = s.messages[data.message_id].receiver_id;
    let (after, stand) = read_race(
        s,
        Seq::new(readers.len(), |i: int| ReadAttempt::Reading),
        readers,
        data,
        schedule,
    );
    assert(steady(s, after, stand, readers, data));
    if forall|i: int| 0 <= i < readers.len() ==> #[trigger] readers[i] != receiver {
        if after != s {
            let i = choose|i: int|
                0 <= i < stand.len() && readers[i] == receiver && #[trigger] stand[i] is Over;
            assert(readers[i] != receiver);
        }
    }
}

} // verus!
