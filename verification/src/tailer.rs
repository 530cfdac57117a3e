//! The decisions of the worker that tails the journal of one volume.
//!
//! The worker itself only performs what it is told: it queries the journal,
//! issues the blocking read, decodes a buffer, or sleeps, and reports what
//! came of it. Which of these comes next, and with which cursor, is decided
//! here.

use crate::reason::REASON_ALL;
use crate::record::{decode, decoded_cursor, decoded_records, views, ChangeRecord};
use vstd::prelude::*;

verus! {

/// The error code of a read that tells that the journal wrapped or was
/// deleted.
pub const CODE_HANDLE_EOF: i32 = 38;

/// The identity of a journal and the position behind its last record.
#[derive(Clone, Copy, Debug, PartialEq, Eq, Structural)]
pub struct JournalState {
    pub journal_id: u64,
    pub next_cursor: i64,
}

/// The parameters of one blocking read.
#[derive(Clone, Copy, Debug, PartialEq, Eq, Structural)]
pub struct ReadCursor {
    /// The position at which the read starts.
    pub start_usn: i64,
    /// The reasons that the read selects.
    pub reason_mask: u32,
    /// Other than zero: report a file only when it is closed.
    pub return_only_on_close: u32,
    /// Seconds after which the read gives up; zero waits without end.
    pub timeout: u64,
    /// The number of bytes whose arrival ends the wait.
    pub bytes_to_wait_for: u64,
    /// The journal that the read addresses.
    pub journal_id: u64,
}

/// The read that follows `journal`: from its next cursor, for every reason,
/// not only on close, without a timeout, woken by the first byte.
pub open spec fn cursor_of(journal: JournalState) -> ReadCursor {
    ReadCursor {
        start_usn: journal.next_cursor,
        reason_mask: REASON_ALL,
        return_only_on_close: 0,
        timeout: 0,
        bytes_to_wait_for: 1,
        journal_id: journal.journal_id,
    }
}

/// Builds the parameters of the next read.
pub fn read_cursor(journal: &JournalState) -> (cursor: ReadCursor)
    ensures
        cursor == cursor_of(*journal),
{
    ReadCursor {
        start_usn: journal.next_cursor,
        reason_mask: REASON_ALL,
        return_only_on_close: 0,
        timeout: 0,
        bytes_to_wait_for: 1,
        journal_id: journal.journal_id,
    }
}

/// Why a read failed.
#[derive(Clone, Copy, Debug, PartialEq, Eq, Structural)]
pub enum ReadError {
    /// The journal wrapped or was deleted: its identity has to be asked anew.
    JournalInvalidated,
    /// Anything else: the same read is tried again.
    Transient,
}

/// The class of an error code.
pub open spec fn error_class(code: i32) -> ReadError {
    if code == CODE_HANDLE_EOF {
        ReadError::JournalInvalidated
    } else {
        ReadError::Transient
    }
}

/// Classifies the error code of a failed read.
pub fn classify_read_error(code: i32) -> (class: ReadError)
    ensures
        class == error_class(code),
{
    if code == CODE_HANDLE_EOF {
        ReadError::JournalInvalidated
    } else {
        ReadError::Transient
    }
}

/// How long the worker sleeps before it tries again.
#[derive(Clone, Copy, Debug, PartialEq, Eq, Structural)]
pub struct BackoffPolicy {
    /// Milliseconds before the journal is queried again after a failed query.
    pub requery_millis: u64,
    /// Milliseconds before a read is repeated after a transient failure.
    pub transient_millis: u64,
}

impl Default for BackoffPolicy {
    fn default() -> (policy: BackoffPolicy)
        ensures
            policy == (BackoffPolicy { requery_millis: 1000, transient_millis: 500 }),
    {
        BackoffPolicy { requery_millis: 1000, transient_millis: 500 }
    }
}

/// What a worker takes up again after a sleep.
#[derive(Clone, Copy, Debug, PartialEq, Eq, Structural)]
pub enum Resume {
    Read,
    Requery,
}

/// Where a worker stands.
#[derive(Clone, Copy, Debug, PartialEq, Eq, Structural)]
pub enum Phase {
    /// The first query of the journal is under way.
    Acquiring,
    /// A blocking read is under way.
    Waiting,
    /// A read returned `length` bytes, which are being decoded.
    Decoding { length: usize },
    /// The journal was invalidated and is queried again.
    Requerying,
    /// The worker sleeps before it tries again.
    Backoff { resume: Resume },
    /// The first query failed: the volume is not monitored.
    Stopped,
}

/// What the worker reports back.
#[derive(Clone, Copy, Debug, PartialEq, Eq, Structural)]
pub enum Event {
    /// A query returned the journal's identity.
    QueryOk { journal: JournalState },
    /// A query failed.
    QueryFailed,
    /// A read returned `length` bytes.
    ReadOk { length: usize },
    /// A read failed with the error `code`.
    ReadFailed { code: i32 },
    /// A buffer was decoded and reported `next_cursor`; `None` where it was
    /// too short to hold one.
    Decoded { next_cursor: Option<i64> },
    /// A sleep is over.
    Slept,
}

/// What the worker is to do next.
#[derive(Clone, Copy, Debug, PartialEq, Eq, Structural)]
pub enum Action {
    /// Query the journal's identity.
    Query,
    /// Issue the blocking read with these parameters.
    Read { cursor: ReadCursor },
    /// Decode the first `length` bytes of the buffer and emit its records.
    Decode { length: usize },
    /// Sleep for `millis` milliseconds.
    Sleep { millis: u64 },
    /// End the worker.
    Stop,
}

/// The state of one worker.
#[derive(Clone, Copy, Debug, PartialEq, Eq, Structural)]
pub struct Tailer {
    pub phase: Phase,
    pub journal: JournalState,
    pub policy: BackoffPolicy,
}

impl Tailer {
    /// The length of the sleep that precedes `resume`.
    pub open spec fn delay(self, resume: Resume) -> u64 {
        match resume {
            Resume::Read => self.policy.transient_millis,
            Resume::Requery => self.policy.requery_millis,
        }
    }

    /// The action that the worker owes in its phase.
    pub open spec fn awaited(self) -> Action {
        match self.phase {
            Phase::Acquiring => Action::Query,
            Phase::Waiting => Action::Read { cursor: cursor_of(self.journal) },
            Phase::Decoding { length } => Action::Decode { length },
            Phase::Requerying => Action::Query,
            Phase::Backoff { resume } => Action::Sleep { millis: self.delay(resume) },
            Phase::Stopped => Action::Stop,
        }
    }

    /// The state that follows `self` on `event`. An event that the phase does
    /// not wait for leaves the state as it is.
    pub open spec fn after(self, event: Event) -> Tailer {
        match (self.phase, event) {
            (Phase::Acquiring, Event::QueryOk { journal }) => Tailer {
                phase: Phase::Waiting,
                journal,
                ..self
            },
            (Phase::Acquiring, Event::QueryFailed) => Tailer { phase: Phase::Stopped, ..self },
            (Phase::Waiting, Event::ReadOk { length }) => Tailer {
                phase: Phase::Decoding { length },
                ..self
            },
            (Phase::Waiting, Event::ReadFailed { code }) => match error_class(code) {
                ReadError::JournalInvalidated => Tailer { phase: Phase::Requerying, ..self },
                ReadError::Transient => Tailer {
                    phase: Phase::Backoff { resume: Resume::Read },
                    ..self
                },
            },
            (Phase::Decoding { length }, Event::Decoded { next_cursor }) => Tailer {
                phase: Phase::Waiting,
                journal: JournalState {
                    journal_id: self.journal.journal_id,
                    next_cursor: match next_cursor {
                        Some(cursor) => cursor,
                        None => self.journal.next_cursor,
                    },
                },
                ..self
            },
            (Phase::Requerying, Event::QueryOk { journal }) => Tailer {
                phase: Phase::Waiting,
                journal,
                ..self
            },
            (Phase::Requerying, Event::QueryFailed) => Tailer {
                phase: Phase::Backoff { resume: Resume::Requery },
                ..self
            },
            (Phase::Backoff { resume }, Event::Slept) => match resume {
                Resume::Read => Tailer { phase: Phase::Waiting, ..self },
                Resume::Requery => Tailer { phase: Phase::Requerying, ..self },
            },
            _ => self,
        }
    }

    /// A worker that has not queried its journal yet.
    pub fn new(policy: BackoffPolicy) -> (tailer: Tailer)
        ensures
            tailer.phase == Phase::Acquiring,
            tailer.policy == policy,
            tailer.journal == (JournalState { journal_id: 0, next_cursor: 0 }),
            tailer.awaited() == Action::Query,
    {
        Tailer {
            phase: Phase::Acquiring,
            journal: JournalState { journal_id: 0, next_cursor: 0 },
            policy,
        }
    }

    /// The action that the worker owes in its phase.
    pub fn pending(&self) -> (action: Action)
        ensures
            action == self.awaited(),
    {
        match self.phase {
            Phase::Acquiring => Action::Query,
            Phase::Waiting => Action::Read { cursor: read_cursor(&self.journal) },
            Phase::Decoding { length } => Action::Decode { length },
            Phase::Requerying => Action::Query,
            Phase::Backoff { resume } => match resume {
                Resume::Read => Action::Sleep { millis: self.policy.transient_millis },
                Resume::Requery => Action::Sleep { millis: self.policy.requery_millis },
            },
            Phase::Stopped => Action::Stop,
        }
    }

    /// Takes in what the worker reports and says what it is to do next.
    pub fn step(&mut self, event: Event) -> (action: Action)
        ensures
            *final(self) == old(self).after(event),
            action == final(self).awaited(),
    {
        match self.phase {
            Phase::Acquiring => match event {
                Event::QueryOk { journal } => {
                    self.journal = journal;
                    self.phase = Phase::Waiting;
                },
                Event::QueryFailed => {
                    self.phase = Phase::Stopped;
                },
                _ => {},
            },
            Phase::Waiting => match event {
                Event::ReadOk { length } => {
                    self.phase = Phase::Decoding { length };
                },
                Event::ReadFailed { code } => match classify_read_error(code) {
                    ReadError::JournalInvalidated => {
                        self.phase = Phase::Requerying;
                    },
                    ReadError::Transient => {
                        self.phase = Phase::Backoff { resume: Resume::Read };
                    },
                },
                _ => {},
            },
            Phase::Decoding { length: _ } => match event {
                Event::Decoded { next_cursor } => {
                    match next_cursor {
                        Some(cursor) => {
                            self.journal.next_cursor = cursor;
                        },
                        None => {},
                    }
                    self.phase = Phase::Waiting;
                },
                _ => {},
            },
            Phase::Requerying => match event {
                Event::QueryOk { journal } => {
                    self.journal = journal;
                    self.phase = Phase::Waiting;
                },
                Event::QueryFailed => {
                    self.phase = Phase::Backoff { resume: Resume::Requery };
                },
                _ => {},
            },
            Phase::Backoff { resume } => match event {
                Event::Slept => match resume {
                    Resume::Read => {
                        self.phase = Phase::Waiting;
                    },
                    Resume::Requery => {
                        self.phase = Phase::Requerying;
                    },
                },
                _ => {},
            },
            Phase::Stopped => {},
        }
        self.pending()
    }

    /// Decodes the buffer of the read that just returned and moves the cursor
    /// to what the buffer reports. The records are those of the bytes that
    /// the read returned, to be emitted in their order. A worker that is not
    /// decoding gets no records and stays as it is.
    pub fn absorb(&mut self, buffer: &[u8]) -> (out: (Vec<ChangeRecord>, Action))
        ensures
            match old(self).phase {
                Phase::Decoding { length } => {
                    &&& views(out.0@) == decoded_records(buffer@, length as int)
                    &&& *final(self) == old(self).after(
                        Event::Decoded { next_cursor: decoded_cursor(buffer@, length as int) },
                    )
                },
                _ => out.0@.len() == 0 && *final(self) == *old(self),
            },
            out.1 == final(self).awaited(),
    {
        match self.phase {
            Phase::Decoding { length } => {
                let decoded = decode(buffer, length);
                let action = self.step(Event::Decoded { next_cursor: decoded.next_cursor });
                (decoded.records, action)
            },
            _ => (Vec::new(), self.pending()),
        }
    }
}

/// Every read that a worker is told to issue starts at the next cursor of the
/// journal that the worker holds at that moment, carries that journal's
/// identifier, selects every reason, and waits without end for one byte.
pub proof fn lemma_read_carries_current_journal(tailer: Tailer, event: Event)
    ensures
        tailer.after(event).awaited() is Read ==> tailer.after(event).awaited() == (Action::Read {
            cursor: cursor_of(tailer.after(event).journal),
        }),
        tailer.after(event).awaited() is Read ==> tailer.after(event).phase == Phase::Waiting,
{
}

/// A worker that got past its first query never stops: whatever is reported
/// to it, it is told to query, read, decode or sleep.
pub proof fn lemma_running_worker_never_stops(tailer: Tailer, event: Event)
    requires
        tailer.phase != Phase::Acquiring,
        tailer.phase != Phase::Stopped,
    ensures
        tailer.after(event).phase != Phase::Stopped,
        tailer.after(event).phase != Phase::Acquiring,
        tailer.after(event).awaited() != Action::Stop,
{
}

/// A read that fails because the journal was invalidated makes the worker
/// query the journal again, and the read that follows a successful query
/// uses the identifier and the cursor that the query returned.
pub proof fn lemma_invalidation_recovers(tailer: Tailer, fresh: JournalState)
    requires
        tailer.phase == Phase::Waiting,
    ensures
        tailer.after(Event::ReadFailed { code: CODE_HANDLE_EOF }).phase == Phase::Requerying,
        tailer.after(Event::ReadFailed { code: CODE_HANDLE_EOF }).awaited() == Action::Query,
        tailer.after(Event::ReadFailed { code: CODE_HANDLE_EOF }).after(
            Event::QueryOk { journal: fresh },
        ).awaited() == (Action::Read { cursor: cursor_of(fresh) }),
        tailer.after(Event::ReadFailed { code: CODE_HANDLE_EOF }).after(Event::QueryFailed).after(
            Event::Slept,
        ).phase == Phase::Requerying,
        tailer.after(Event::ReadFailed { code: CODE_HANDLE_EOF }).after(
            Event::QueryFailed,
        ).awaited() == (Action::Sleep { millis: tailer.policy.requery_millis }),
{
}

/// A read that fails for any other reason is repeated unchanged after the
/// sleep that the policy sets.
pub proof fn lemma_transient_failure_repeats_read(tailer: Tailer, code: i32)
    requires
        tailer.phase == Phase::Waiting,
        code != CODE_HANDLE_EOF,
    ensures
        tailer.after(Event::ReadFailed { code }).awaited() == (Action::Sleep {
            millis: tailer.policy.transient_millis,
        }),
        tailer.after(Event::ReadFailed { code }).after(Event::Slept).awaited() == tailer.awaited(),
        tailer.after(Event::ReadFailed { code }).after(Event::Slept).journal == tailer.journal,
{
}

/// Decoding moves the cursor to what the buffer reported and leaves the
/// journal's identifier alone; a buffer too short to report a cursor leaves
/// both.
pub proof fn lemma_decoding_advances_cursor(tailer: Tailer, length: usize, next: Option<i64>)
    requires
        tailer.phase == (Phase::Decoding { length }),
    ensures
        tailer.after(Event::Decoded { next_cursor: next }).phase == Phase::Waiting,
        tailer.after(Event::Decoded { next_cursor: next }).journal.journal_id
            == tailer.journal.journal_id,
        next.is_some() ==> tailer.after(Event::Decoded { next_cursor: next }).journal.next_cursor
            == next.unwrap(),
        next.is_none() ==> tailer.after(Event::Decoded { next_cursor: next }).journal
            == tailer.journal,
{
}

} // verus!
