//! A tracked mutation as a machine: it says what to ask of the server next, is told what came
//! of it, and ends by saying what to return.

use vstd::prelude::*;

use crate::error::Error;
use crate::history::HistoryEntry;
use crate::model::{find_target, BulkWriteModel};
use crate::retry::{before_deadline, is_transient_transaction_error, is_unknown_commit_result};
#[allow(unused_imports)]
use crate::model::{lemma_next_target, next_target};
#[allow(unused_imports)]
use crate::retry::{is_commit_unknown, is_transient, within_window};

verus! {

/// Whether archiving and mutating are one transaction or two independent operations.
#[derive(Debug, Clone, Copy, PartialEq, Eq, Structural)]
pub enum Mode {
    /// One transaction, which needs a replica set or a sharded cluster.
    Transactional,
    /// No transaction: first the archive, then the mutation, and no retries.
    Standalone,
}

/// What is to be asked of the server next. `E` holds the entries of one archive insert.
#[derive(Debug)]
pub enum Request<E, R> {
    /// Start a client session.
    StartSession,
    /// Start a transaction in that session.
    StartTransaction,
    /// Open a cursor over the documents that the write at this position of the batch matches.
    Find(usize),
    /// Advance the cursor.
    NextDocument,
    /// Insert these entries into the history collection.
    InsertHistory(E),
    /// Apply the batch to the main collection.
    Mutate,
    /// Commit the transaction.
    Commit,
    /// Abort the transaction.
    Abort,
    /// Ask nothing more, and return this.
    Return(Result<R, Error>),
}

/// What came of a request.
#[derive(Debug)]
pub enum Event<T, R> {
    /// It succeeded, with nothing to report.
    Done,
    /// The cursor gave this document.
    Document(T),
    /// The cursor has no more documents.
    Exhausted,
    /// The batch was applied, with this result.
    Mutated(R),
    /// It failed.
    Failed(mongodb::error::Error),
}

/// Where a transaction stands: the request it waits for, and what it must remember meanwhile.
#[derive(Debug)]
pub enum Phase<E, R> {
    /// Waiting for a session.
    StartingSession,
    /// Waiting for the transaction to start.
    StartingTransaction,
    /// Waiting for the cursor of the write at `index`.
    Finding { index: usize },
    /// Reading that cursor; `entries` are the versions read so far.
    Reading { index: usize, entries: E },
    /// Waiting for the history insert of the write at `index`.
    Inserting { index: usize },
    /// Waiting for the mutation.
    Mutating,
    /// Committing since `since`; `value` is the result of the mutation.
    Committing { value: R, since: u128 },
    /// Aborting an attempt that will be started again.
    Retrying,
    /// Aborting the last attempt, which failed with `err`.
    Failing { err: mongodb::error::Error },
    /// The result has been handed out.
    Finished,
}

/// The mathematical state of a [`Transaction`].
pub struct State<T, R> {
    /// The batch that is to be applied.
    pub models: Seq<BulkWriteModel<T>>,
    /// Whether a transaction is used.
    pub mode: Mode,
    /// The clock reading from which retries are counted.
    pub since: u128,
    /// Where the run stands.
    pub phase: Phase<Seq<HistoryEntry<T>>, R>,
}

/// A state and the request that goes with it.
pub type Move<T, R> = (State<T, R>, Request<Seq<HistoryEntry<T>>, R>);

impl<T, R> State<T, R> {
    /// The position in the batch, where there is one, is that of a write that archives; and
    /// without a transaction nothing of a transaction is waited for.
    pub open spec fn well_formed(self) -> bool {
        &&& match self.phase {
            Phase::Finding { index } => self.is_target(index as int),
            Phase::Reading { index, .. } => self.is_target(index as int),
            Phase::Inserting { index } => self.is_target(index as int),
            _ => true,
        }
        &&& self.mode is Standalone ==> {
            ||| self.phase is Finding
            ||| self.phase is Reading
            ||| self.phase is Inserting
            ||| self.phase is Mutating
            ||| self.phase is Finished
        }
    }

    /// Whether the write at `index` archives the documents that it matches.
    pub open spec fn is_target(self, index: int) -> bool {
        &&& 0 <= index < self.models.len()
        &&& self.models[index].archived_as() is Some
    }

    /// Whether `event` is an answer to the request that the run waits for.
    pub open spec fn accepts(self, event: Event<T, R>) -> bool {
        match self.phase {
            Phase::Reading { .. } => event is Document || event is Exhausted || event is Failed,
            Phase::Mutating => event is Mutated || event is Failed,
            Phase::Finished => false,
            _ => event is Done || event is Failed,
        }
    }

    /// The same run in another phase.
    pub open spec fn at(self, phase: Phase<Seq<HistoryEntry<T>>, R>) -> State<T, R> {
        State { phase, ..self }
    }

    /// The run ends with `outcome`.
    pub open spec fn ends(self, outcome: Result<R, Error>) -> Move<T, R> {
        (self.at(Phase::Finished), Request::Return(outcome))
    }

    /// A run begins: with a session, or, without transactions, with the archive.
    pub open spec fn begins(models: Seq<BulkWriteModel<T>>, mode: Mode, now: u128) -> Move<T, R> {
        let state = State { models, mode, since: now, phase: Phase::StartingSession };
        match mode {
            Mode::Transactional => (state, Request::StartSession),
            Mode::Standalone => state.resumes(0),
        }
    }

    /// Archiving goes on with the next write that archives, at `from` or later; when there is
    /// none left, the batch is applied.
    pub open spec fn resumes(self, from: int) -> Move<T, R> {
        let index = next_target(self.models, from);
        if index < self.models.len() {
            (self.at(Phase::Finding { index: index as usize }), Request::Find(index as usize))
        } else {
            (self.at(Phase::Mutating), Request::Mutate)
        }
    }

    /// What follows a request that succeeded with nothing to report.
    pub open spec fn done(self) -> Move<T, R> {
        match self.phase {
            Phase::StartingSession => (
                self.at(Phase::StartingTransaction),
                Request::StartTransaction,
            ),
            Phase::StartingTransaction => self.resumes(0),
            Phase::Finding { index } => (
                self.at(Phase::Reading { index, entries: Seq::empty() }),
                Request::NextDocument,
            ),
            Phase::Inserting { index } => self.resumes(index + 1),
            Phase::Committing { value, .. } => self.ends(Ok(value)),
            Phase::Retrying => (self.at(Phase::StartingSession), Request::StartSession),
            Phase::Failing { err } => self.ends(Err(Error::Mongo(err))),
            _ => arbitrary(),
        }
    }

    /// The entry under which a document read from the current cursor is archived.
    pub open spec fn entry(self, document: T, archived_at: bson::DateTime) -> HistoryEntry<T> {
        HistoryEntry {
            archived_at,
            operation: self.models[self.phase->Reading_index as int].archived_as()->0,
            document,
        }
    }

    /// A document was read: one entry more, and the cursor is advanced again.
    pub open spec fn reads(self, document: T, archived_at: bson::DateTime) -> Move<T, R> {
        let entries = self.phase->entries.push(self.entry(document, archived_at));
        (
            self.at(Phase::Reading { index: self.phase->Reading_index, entries }),
            Request::NextDocument,
        )
    }

    /// The cursor is at its end: what was read is inserted into the history, if it is anything
    /// at all.
    pub open spec fn exhausts(self) -> Move<T, R> {
        let index = self.phase->Reading_index;
        if self.phase->entries.len() > 0 {
            (
                self.at(Phase::Inserting { index }),
                Request::InsertHistory(self.phase->entries),
            )
        } else {
            self.resumes(index + 1)
        }
    }

    /// The batch was applied: the transaction is committed, or, without one, the run is over.
    pub open spec fn mutates(self, value: R, now: u128) -> Move<T, R> {
        match self.mode {
            Mode::Transactional => (
                self.at(Phase::Committing { value, since: now }),
                Request::Commit,
            ),
            Mode::Standalone => self.ends(Ok(value)),
        }
    }

    /// What follows a failure. `transient` and `unknown` say which of the two labels for
    /// retries the error carries. A commit of unknown outcome is asked for again, and never
    /// started again, as it may have taken effect; any other attempt that fails with a
    /// transient error, at its commit or before, is started again from scratch. Before the
    /// commit it is aborted first; after a commit there is nothing left to abort.
    pub open spec fn fails(
        self,
        err: mongodb::error::Error,
        transient: bool,
        unknown: bool,
        now: u128,
    ) -> Move<T, R> {
        match self.phase {
            Phase::StartingSession => self.ends(Err(Error::Mongo(err))),
            Phase::StartingTransaction => self.ends(Err(Error::Mongo(err))),
            Phase::Committing { since, .. } => if unknown && within_window(since, now) {
                (self, Request::Commit)
            } else if transient && !unknown && within_window(self.since, now) {
                (self.at(Phase::StartingSession), Request::StartSession)
            } else {
                self.ends(Err(Error::Mongo(err)))
            },
            Phase::Retrying => (self.at(Phase::StartingSession), Request::StartSession),
            Phase::Failing { .. } => self.ends(Err(Error::Mongo(err))),
            _ => if self.mode is Standalone {
                self.ends(Err(Error::Mongo(err)))
            } else if transient && within_window(self.since, now) {
                (self.at(Phase::Retrying), Request::Abort)
            } else {
                (self.at(Phase::Failing { err }), Request::Abort)
            },
        }
    }

    /// What follows an event at clock reading `now`, where a document that was read is
    /// archived with the date `archived_at`.
    pub open spec fn after(
        self,
        event: Event<T, R>,
        now: u128,
        archived_at: bson::DateTime,
    ) -> Move<T, R> {
        match event {
            Event::Done => self.done(),
            Event::Document(document) => self.reads(document, archived_at),
            Event::Exhausted => self.exhausts(),
            Event::Mutated(value) => self.mutates(value, now),
            Event::Failed(err) => self.fails(err, is_transient(err), is_commit_unknown(err), now),
        }
    }
}

impl<T, R> View for Phase<Vec<HistoryEntry<T>>, R> {
    type V = Phase<Seq<HistoryEntry<T>>, R>;

    open spec fn view(&self) -> Phase<Seq<HistoryEntry<T>>, R> {
        match *self {
            Phase::StartingSession => Phase::StartingSession,
            Phase::StartingTransaction => Phase::StartingTransaction,
            Phase::Finding { index } => Phase::Finding { index },
            Phase::Reading { index, entries } => Phase::Reading { index, entries: entries@ },
            Phase::Inserting { index } => Phase::Inserting { index },
            Phase::Mutating => Phase::Mutating,
            Phase::Committing { value, since } => Phase::Committing { value, since },
            Phase::Retrying => Phase::Retrying,
            Phase::Failing { err } => Phase::Failing { err },
            Phase::Finished => Phase::Finished,
        }
    }
}

impl<T, R> View for Request<Vec<HistoryEntry<T>>, R> {
    type V = Request<Seq<HistoryEntry<T>>, R>;

    open spec fn view(&self) -> Request<Seq<HistoryEntry<T>>, R> {
        match *self {
            Request::StartSession => Request::StartSession,
            Request::StartTransaction => Request::StartTransaction,
            Request::Find(index) => Request::Find(index),
            Request::NextDocument => Request::NextDocument,
            Request::InsertHistory(entries) => Request::InsertHistory(entries@),
            Request::Mutate => Request::Mutate,
            Request::Commit => Request::Commit,
            Request::Abort => Request::Abort,
            Request::Return(outcome) => Request::Return(outcome),
        }
    }
}

/// A tracked mutation in progress.
#[derive(Debug)]
pub struct Transaction<T, R> {
    models: Vec<BulkWriteModel<T>>,
    mode: Mode,
    since: u128,
    phase: Phase<Vec<HistoryEntry<T>>, R>,
}

/// A transaction and the request that goes with it.
pub type Turn<T, R> = (Transaction<T, R>, Request<Vec<HistoryEntry<T>>, R>);

impl<T, R> View for Transaction<T, R> {
    type V = State<T, R>;

    closed spec fn view(&self) -> State<T, R> {
        State { models: self.models@, mode: self.mode, since: self.since, phase: self.phase@ }
    }
}

impl<T, R> Transaction<T, R> {
    #[verifier::type_invariant]
    spec fn is_consistent(self) -> bool {
        self@.well_formed()
    }

    /// Begins the run that archives what `models` match and then applies them. Retries are
    /// counted from the clock reading `now`.
    pub fn begin(models: Vec<BulkWriteModel<T>>, mode: Mode, now: u128) -> (turn: Turn<T, R>)
        ensures
            (turn.0@, turn.1@) == State::<T, R>::begins(models@, mode, now),
            turn.0@.well_formed(),
    {
        match mode {
            Mode::Transactional => {
                let phase = Phase::StartingSession;
                (Transaction { models, mode, since: now, phase }, Request::StartSession)
            },
            Mode::Standalone => Self::resume(models, mode, now, 0),
        }
    }

    /// Goes on archiving at `from`.
    fn resume(models: Vec<BulkWriteModel<T>>, mode: Mode, since: u128, from: usize) -> (turn: Turn<
        T,
        R,
    >)
        requires
            from <= models@.len(),
        ensures
            (turn.0@, turn.1@) == (State::<T, R> {
                models: models@,
                mode,
                since,
                phase: Phase::Mutating,
            }).resumes(from as int),
            turn.0@.well_formed(),
    {
        proof {
            lemma_next_target(models@, from as int);
        }
        let index: usize = find_target(&models, from);
        if index < models.len() {
            let phase = Phase::Finding { index };
            (Transaction { models, mode, since, phase }, Request::Find(index))
        } else {
            (Transaction { models, mode, since, phase: Phase::Mutating }, Request::Mutate)
        }
    }

    /// The batch that the run applies.
    pub fn models(&self) -> (models: &Vec<BulkWriteModel<T>>)
        ensures
            models@ == self@.models,
    {
        &self.models
    }

    /// Whether the run uses a transaction.
    pub fn mode(&self) -> (mode: Mode)
        ensures
            mode == self@.mode,
    {
        self.mode
    }

    /// Whether `event` is an answer to the request that the run waits for.
    pub fn accepts(&self, event: &Event<T, R>) -> (accepted: bool)
        ensures
            accepted == self@.accepts(*event),
    {
        match (&self.phase, event) {
            (Phase::Finished, _) => false,
            (_, Event::Failed(_)) => true,
            (Phase::Reading { .. }, Event::Document(_)) => true,
            (Phase::Reading { .. }, Event::Exhausted) => true,
            (Phase::Reading { .. }, _) => false,
            (Phase::Mutating, Event::Mutated(_)) => true,
            (Phase::Mutating, _) => false,
            (_, Event::Done) => true,
            _ => false,
        }
    }

    /// Goes on after a request that succeeded with nothing to report.
    pub fn succeed(self) -> (turn: Turn<T, R>)
        requires
            self@.accepts(Event::Done),
        ensures
            (turn.0@, turn.1@) == self@.done(),
            turn.0@.well_formed(),
    {
        proof {
            use_type_invariant(&self);
        }
        let Transaction { models, mode, since, phase } = self;
        match phase {
            Phase::StartingSession => {
                let phase = Phase::StartingTransaction;
                (Transaction { models, mode, since, phase }, Request::StartTransaction)
            },
            Phase::StartingTransaction => Self::resume(models, mode, since, 0),
            Phase::Finding { index } => {
                let phase = Phase::Reading { index, entries: Vec::new() };
                (Transaction { models, mode, since, phase }, Request::NextDocument)
            },
            Phase::Inserting { index } => {
                assert(index < models.len());
                Self::resume(models, mode, since, index + 1)
            },
            Phase::Committing { value, .. } => Self::finish(models, mode, since, Ok(value)),
            Phase::Failing { err } => Self::finish(
                models,
                mode,
                since,
                Err(Error::from(err)),
            ),
            _ => {
                let phase = Phase::StartingSession;
                (Transaction { models, mode, since, phase }, Request::StartSession)
            },
        }
    }

    /// Takes note of a document that the cursor gave, as archived at `archived_at`.
    pub fn record(self, document: T, archived_at: bson::DateTime) -> (turn: Turn<T, R>)
        requires
            self@.phase is Reading,
        ensures
            (turn.0@, turn.1@) == self@.reads(document, archived_at),
            turn.0@.well_formed(),
    {
        proof {
            use_type_invariant(&self);
        }
        let Transaction { models, mode, since, phase } = self;
        match phase {
            Phase::Reading { index, mut entries } => {
                let operation = models[index].operation().unwrap();
                entries.push(HistoryEntry { archived_at, operation, document });
                let phase = Phase::Reading { index, entries };
                (Transaction { models, mode, since, phase }, Request::NextDocument)
            },
            _ => vstd::pervasive::unreached(),
        }
    }

    /// Goes on after the end of the cursor.
    pub fn exhaust(self) -> (turn: Turn<T, R>)
        requires
            self@.phase is Reading,
        ensures
            (turn.0@, turn.1@) == self@.exhausts(),
            turn.0@.well_formed(),
    {
        proof {
            use_type_invariant(&self);
        }
        let Transaction { models, mode, since, phase } = self;
        match phase {
            Phase::Reading { index, entries } => {
                if entries.len() > 0 {
                    let phase = Phase::Inserting { index };
                    (
                        Transaction { models, mode, since, phase },
                        Request::InsertHistory(entries),
                    )
                } else {
                    assert(index < models.len());
                    Self::resume(models, mode, since, index + 1)
                }
            },
            _ => vstd::pervasive::unreached(),
        }
    }

    /// Goes on after the batch was applied with the result `value`.
    pub fn apply(self, value: R, now: u128) -> (turn: Turn<T, R>)
        requires
            self@.phase is Mutating,
        ensures
            (turn.0@, turn.1@) == self@.mutates(value, now),
            turn.0@.well_formed(),
    {
        let Transaction { models, mode, since, phase: _ } = self;
        match mode {
            Mode::Transactional => {
                let phase = Phase::Committing { value, since: now };
                (Transaction { models, mode, since, phase }, Request::Commit)
            },
            Mode::Standalone => Self::finish(models, mode, since, Ok(value)),
        }
    }

    /// Goes on after a failure, given which of the two labels for retries the error carries.
    pub fn fail(
        self,
        err: mongodb::error::Error,
        transient: bool,
        unknown: bool,
        now: u128,
    ) -> (turn: Turn<T, R>)
        requires
            !(self@.phase is Finished),
        ensures
            (turn.0@, turn.1@) == self@.fails(err, transient, unknown, now),
            turn.0@.well_formed(),
    {
        proof {
            use_type_invariant(&self);
        }
        let Transaction { models, mode, since, phase } = self;
        match phase {
            Phase::StartingSession | Phase::StartingTransaction | Phase::Failing { .. } => {
                Self::finish(models, mode, since, Err(Error::from(err)))
            },
            Phase::Committing { value, since: committing_since } => {
                if unknown && before_deadline(committing_since, now) {
                    let phase = Phase::Committing { value, since: committing_since };
                    (Transaction { models, mode, since, phase }, Request::Commit)
                } else if transient && !unknown && before_deadline(since, now) {
                    let phase = Phase::StartingSession;
                    (Transaction { models, mode, since, phase }, Request::StartSession)
                } else {
                    Self::finish(models, mode, since, Err(Error::from(err)))
                }
            },
            Phase::Retrying => {
                let phase = Phase::StartingSession;
                (Transaction { models, mode, since, phase }, Request::StartSession)
            },
            _ => match mode {
                Mode::Standalone => Self::finish(models, mode, since, Err(Error::from(err))),
                Mode::Transactional => {
                    let phase = if transient && before_deadline(since, now) {
                        Phase::Retrying
                    } else {
                        Phase::Failing { err }
                    };
                    (Transaction { models, mode, since, phase }, Request::Abort)
                },
            },
        }
    }

    /// Goes on after `event`, reported at clock reading `now`. A document that was read is
    /// archived with the current date.
    pub fn step(self, event: Event<T, R>, now: u128) -> (turn: Turn<T, R>)
        requires
            self@.accepts(event),
        ensures
            exists|archived_at: bson::DateTime|
                #![trigger self@.after(event, now, archived_at)]
                (turn.0@, turn.1@) == self@.after(event, now, archived_at) && (event is Document
                    ==> call_ensures(bson::DateTime::now, (), archived_at)),
            turn.0@.well_formed(),
    {
        let ghost before = self@;
        let ghost mut archived_at: bson::DateTime = arbitrary();
        let turn = match event {
            Event::Done => self.succeed(),
            Event::Document(document) => {
                let date = bson::DateTime::now();
                proof {
                    archived_at = date;
                }
                self.record(document, date)
            },
            Event::Exhausted => self.exhaust(),
            Event::Mutated(value) => self.apply(value, now),
            Event::Failed(err) => {
                let transient = is_transient_transaction_error(&err);
                let unknown = is_unknown_commit_result(&err);
                self.fail(err, transient, unknown, now)
            },
        };
        assert((turn.0@, turn.1@) == before.after(event, now, archived_at));
        turn
    }

    /// Ends the run with `outcome`.
    fn finish(
        models: Vec<BulkWriteModel<T>>,
        mode: Mode,
        since: u128,
        outcome: Result<R, Error>,
    ) -> (turn: Turn<T, R>)
        ensures
            turn.0@ == (State::<T, R> { models: models@, mode, since, phase: Phase::Finished }),
            turn.1@ == Request::<Seq<HistoryEntry<T>>, R>::Return(outcome),
            turn.0@.well_formed(),
    {
        (Transaction { models, mode, since, phase: Phase::Finished }, Request::Return(outcome))
    }
}

} // verus!
