//! What holds of whole runs of a transaction, whatever the server answers.
//!
//! A [`Run`] is a transaction together with the [`Server`] it talks to. The server is
//! described by what a MongoDB deployment promises: the writes of a transaction become
//! durable together, with its commit, or not at all; a commit that fails may have taken
//! effect nevertheless, unless the failure is called transient and its outcome is not called
//! unknown; and writes outside a transaction are durable one by one, as far as they got.

use vstd::prelude::*;

use crate::history::{HistoryEntry, Operation};
use crate::model::BulkWriteModel;
use crate::transaction::{Event, Mode, Phase, Request, State};
#[allow(unused_imports)]
use crate::error::Error;
#[allow(unused_imports)]
use crate::model::lemma_next_target;
#[allow(unused_imports)]
use crate::driver::error_labels;

verus! {

/// Something that a run has written.
pub enum Write<T> {
    /// Entries of the history collection.
    Archived(Seq<HistoryEntry<T>>),
    /// The batch, applied to the main collection.
    Applied,
}

/// An answer of the server.
pub struct Reply<T, R> {
    /// What the run is told.
    pub event: Event<T, R>,
    /// The clock reading at which it is told.
    pub now: u128,
    /// The date under which a document that was read is archived.
    pub archived_at: bson::DateTime,
    /// How much of a request that failed took effect nevertheless.
    pub landed: nat,
}

/// What the server holds of one run.
pub struct Server<T, R> {
    /// What is written for good.
    pub durable: Seq<Write<T>>,
    /// What the open transaction has written.
    pub open: Seq<Write<T>>,
    /// The documents given out in the last attempt, each with the position of the write that
    /// matched it.
    pub delivered: Seq<(int, T)>,
    /// The positions whose cursor was read to its end in the last attempt.
    pub exhausted: Set<int>,
    /// The result of the mutation in the last attempt.
    pub result: Option<R>,
    /// The clock reading at which that result was reported.
    pub mutated_at: u128,
    /// Whether a commit was asked for in the last attempt.
    pub commit_asked: bool,
    /// Whether a session was started.
    pub in_session: bool,
    /// Whether a transaction was started in that session, and not given up since.
    pub in_transaction: bool,
    /// The position of the write whose cursor was opened last.
    pub cursor: int,
    /// The documents that this cursor has given out, each with the date of its reading.
    pub pending: Seq<(T, bson::DateTime)>,
}

impl<T, R> Server<T, R> {
    /// Nothing has been asked yet.
    pub open spec fn idle() -> Server<T, R> {
        Server {
            durable: Seq::empty(),
            open: Seq::empty(),
            delivered: Seq::empty(),
            exhausted: Set::empty(),
            result: None,
            mutated_at: 0,
            commit_asked: false,
            in_session: false,
            in_transaction: false,
            cursor: 0,
            pending: Seq::empty(),
        }
    }

    /// What was written under `mode` and not rolled back.
    pub open spec fn written(self, mode: Mode) -> Seq<Write<T>> {
        match mode {
            Mode::Transactional => self.open,
            Mode::Standalone => self.durable,
        }
    }

    /// One write more: in the transaction, or for good where none was started.
    pub open spec fn writes(self, write: Write<T>) -> Server<T, R> {
        if self.in_transaction {
            Server { open: self.open.push(write), ..self }
        } else {
            Server { durable: self.durable.push(write), ..self }
        }
    }

    /// The open transaction takes effect.
    pub open spec fn commits(self) -> Server<T, R> {
        Server { durable: self.durable + self.open, open: Seq::empty(), ..self }
    }

    /// The server after it has answered the request with the reply. It knows nothing of the
    /// run but what it is asked.
    pub open spec fn answers(
        self,
        request: Request<Seq<HistoryEntry<T>>, R>,
        reply: Reply<T, R>,
    ) -> Server<T, R> {
        match request {
            Request::StartSession => Server {
                open: Seq::empty(),
                commit_asked: false,
                in_session: reply.event is Done,
                in_transaction: false,
                ..self
            },
            Request::StartTransaction => if reply.event is Done {
                Server {
                    open: Seq::empty(),
                    delivered: Seq::empty(),
                    exhausted: Set::empty(),
                    result: None,
                    in_transaction: self.in_session,
                    ..self
                }
            } else {
                self
            },
            Request::Find(index) => if reply.event is Done {
                Server { cursor: index as int, pending: Seq::empty(), ..self }
            } else {
                self
            },
            Request::NextDocument => match reply.event {
                Event::Document(document) => Server {
                    delivered: self.delivered.push((self.cursor, document)),
                    pending: self.pending.push((document, reply.archived_at)),
                    ..self
                },
                Event::Exhausted => Server {
                    exhausted: self.exhausted.insert(self.cursor),
                    ..self
                },
                _ => self,
            },
            Request::InsertHistory(entries) => if reply.event is Done {
                self.writes(Write::Archived(entries))
            } else if !self.in_transaction && reply.landed <= entries.len() {
                self.writes(Write::Archived(entries.take(reply.landed as int)))
            } else {
                self
            },
            Request::Mutate => match reply.event {
                Event::Mutated(value) => Server {
                    result: Some(value),
                    mutated_at: reply.now,
                    ..self
                }.writes(Write::Applied),
                _ => if !self.in_transaction && reply.landed > 0 {
                    self.writes(Write::Applied)
                } else {
                    self
                },
            },
            Request::Commit => {
                let asked = Server { commit_asked: true, ..self };
                if self.in_transaction && (reply.event is Done || reply.landed > 0) {
                    asked.commits()
                } else {
                    asked
                }
            },
            Request::Abort => Server { open: Seq::empty(), in_transaction: false, ..self },
            Request::Return(_) => self,
        }
    }
}

/// Whether the event is an answer that the request can get.
pub open spec fn can_answer<T, R>(
    request: Request<Seq<HistoryEntry<T>>, R>,
    event: Event<T, R>,
) -> bool {
    match request {
        Request::NextDocument => event is Document || event is Exhausted || event is Failed,
        Request::Mutate => event is Mutated || event is Failed,
        Request::Return(_) => false,
        _ => event is Done || event is Failed,
    }
}

/// A transaction, the request it waits for, and the server.
pub struct Run<T, R> {
    pub state: State<T, R>,
    pub request: Request<Seq<HistoryEntry<T>>, R>,
    pub server: Server<T, R>,
}

impl<T, R> Run<T, R> {
    /// The run after one reply more.
    pub open spec fn then_reply(self, reply: Reply<T, R>) -> Run<T, R> {
        let (state, request) = self.state.after(reply.event, reply.now, reply.archived_at);
        Run { state, request, server: self.server.answers(self.request, reply) }
    }
}

/// The run of a batch after the given replies.
pub open spec fn run<T, R>(
    models: Seq<BulkWriteModel<T>>,
    mode: Mode,
    start: u128,
    replies: Seq<Reply<T, R>>,
) -> Run<T, R>
    decreases replies.len(),
{
    if replies.len() == 0 {
        let (state, request) = State::<T, R>::begins(models, mode, start);
        Run { state, request, server: Server::idle() }
    } else {
        run(models, mode, start, replies.drop_last()).then_reply(replies.last())
    }
}

impl<T, R> Run<T, R> {
    /// Whether the reply answers the request that the run waits for, and keeps the promise of
    /// the driver's labels: a transaction whose commit fails with a transient error, the
    /// outcome of which is not called unknown, has not taken effect.
    pub open spec fn accepts(self, reply: Reply<T, R>) -> bool {
        &&& can_answer(self.request, reply.event)
        &&& self.request is Commit ==> (reply.event matches Event::Failed(err) ==> {
            &&& error_labels(err).contains("TransientTransactionError"@)
            &&& !error_labels(err).contains("UnknownTransactionCommitResult"@)
        } ==> self.server.durable.len() == 0 && reply.landed == 0)
    }
}

/// Whether each reply answers the request that the run waits for, as a server may.
pub open spec fn is_proper<T, R>(
    models: Seq<BulkWriteModel<T>>,
    mode: Mode,
    start: u128,
    replies: Seq<Reply<T, R>>,
) -> bool
    decreases replies.len(),
{
    replies.len() > 0 ==> {
        &&& is_proper(models, mode, start, replies.drop_last())
        &&& run(models, mode, start, replies.drop_last()).accepts(replies.last())
    }
}

/// The history entries among the writes, in order.
pub open spec fn archived<T>(writes: Seq<Write<T>>) -> Seq<HistoryEntry<T>>
    decreases writes.len(),
{
    if writes.len() == 0 {
        Seq::empty()
    } else {
        match writes.last() {
            Write::Archived(entries) => archived(writes.drop_last()) + entries,
            Write::Applied => archived(writes.drop_last()),
        }
    }
}

/// How often the batch is among the writes.
pub open spec fn applied<T>(writes: Seq<Write<T>>) -> nat
    decreases writes.len(),
{
    if writes.len() == 0 {
        0
    } else if writes.last() is Applied {
        applied(writes.drop_last()) + 1
    } else {
        applied(writes.drop_last())
    }
}

/// The entries are the documents that were given out, one for each and in order, each under
/// the operation of the write that matched it.
pub open spec fn preserves<T>(
    entries: Seq<HistoryEntry<T>>,
    delivered: Seq<(int, T)>,
    models: Seq<BulkWriteModel<T>>,
) -> bool {
    &&& entries.len() == delivered.len()
    &&& forall|k: int|
        #![trigger entries[k]]
        #![trigger delivered[k]]
        0 <= k < entries.len() ==> {
            &&& entries[k].document == delivered[k].1
            &&& 0 <= delivered[k].0 < models.len()
            &&& !(models[delivered[k].0] is InsertOne)
            &&& entries[k].operation == kind(models[delivered[k].0])
        }
}

/// The cursor of every write before `end`, inserts aside, was read to its end.
pub open spec fn has_read<T>(
    exhausted: Set<int>,
    models: Seq<BulkWriteModel<T>>,
    end: int,
) -> bool {
    forall|i: int|
        0 <= i < end && !((#[trigger] models[i]) is InsertOne) ==> exhausted.contains(i)
}

impl<T, R> Server<T, R> {
    /// The writes are a history entry for each document that any write of the batch matched,
    /// and after them, once, the batch.
    pub open spec fn is_whole(
        self,
        writes: Seq<Write<T>>,
        models: Seq<BulkWriteModel<T>>,
    ) -> bool {
        &&& writes.len() > 0
        &&& writes.last() is Applied
        &&& applied(writes) == 1
        &&& preserves(archived(writes), self.delivered, models)
        &&& has_read(self.exhausted, models, models.len() as int)
    }

    /// Nothing but these entries is yet to be written of what was given out, and the batch is
    /// not applied.
    pub open spec fn is_archiving(
        self,
        mode: Mode,
        models: Seq<BulkWriteModel<T>>,
        entries: Seq<HistoryEntry<T>>,
        end: int,
    ) -> bool {
        &&& applied(self.written(mode)) == 0
        &&& preserves(archived(self.written(mode)) + entries, self.delivered, models)
        &&& has_read(self.exhausted, models, end)
        &&& mode is Transactional ==> self.durable.len() == 0
        &&& !self.commit_asked
        &&& self.in_session == (mode is Transactional)
        &&& self.in_transaction == (mode is Transactional)
    }
}

/// The operation under which the documents that a write matches are archived.
pub open spec fn kind<T>(model: BulkWriteModel<T>) -> Operation {
    match model {
        BulkWriteModel::UpdateOne { .. } | BulkWriteModel::UpdateMany { .. } => Operation::Update,
        BulkWriteModel::ReplaceOne { .. } => Operation::Replace,
        _ => Operation::Delete,
    }
}

/// The entries are these documents, one for each and in order, under these dates and the
/// operation of the write.
pub open spec fn is_pending<T>(
    entries: Seq<HistoryEntry<T>>,
    pending: Seq<(T, bson::DateTime)>,
    model: BulkWriteModel<T>,
) -> bool {
    &&& entries.len() == pending.len()
    &&& forall|k: int|
        #![trigger entries[k]]
        #![trigger pending[k]]
        0 <= k < entries.len() ==> {
            &&& entries[k].document == pending[k].0
            &&& entries[k].archived_at == pending[k].1
            &&& entries[k].operation == kind(model)
        }
}

/// What every run keeps.
pub open spec fn is_sound<T, R>(
    at: Run<T, R>,
    models: Seq<BulkWriteModel<T>>,
    mode: Mode,
    start: u128,
) -> bool {
    let server = at.server;
    &&& at.state.well_formed()
    &&& at.state.models == models
    &&& at.state.mode == mode
    &&& at.state.since == start
    &&& match at.state.phase {
        Phase::StartingSession => {
            &&& at.request is StartSession
            &&& server.durable.len() == 0
        },
        Phase::StartingTransaction => {
            &&& at.request is StartTransaction
            &&& server.durable.len() == 0
            &&& !server.commit_asked
            &&& server.in_session
            &&& !server.in_transaction
        },
        Phase::Finding { index } => {
            &&& at.request == Request::<Seq<HistoryEntry<T>>, R>::Find(index)
            &&& server.is_archiving(mode, models, Seq::empty(), index as int)
        },
        Phase::Reading { index, entries } => {
            &&& at.request is NextDocument
            &&& server.is_archiving(mode, models, entries, index as int)
            &&& server.cursor == index
            &&& is_pending(entries, server.pending, models[index as int])
        },
        Phase::Inserting { index } => {
            &&& at.request is InsertHistory
            &&& server.is_archiving(mode, models, at.request->InsertHistory_0, index + 1)
            &&& server.cursor == index
            &&& at.request->InsertHistory_0.len() > 0
            &&& is_pending(at.request->InsertHistory_0, server.pending, models[index as int])
        },
        Phase::Mutating => {
            &&& at.request is Mutate
            &&& server.is_archiving(mode, models, Seq::empty(), models.len() as int)
        },
        Phase::Committing { value, since } => {
            &&& at.request is Commit
            &&& mode is Transactional
            &&& server.in_session
            &&& server.in_transaction
            &&& server.mutated_at == since
            &&& server.result == Some(value)
            &&& {
                ||| server.durable.len() == 0 && server.is_whole(server.open, models)
                ||| server.open.len() == 0 && server.is_whole(server.durable, models)
                    && server.commit_asked
            }
        },
        Phase::Retrying => {
            &&& at.request is Abort
            &&& server.durable.len() == 0
            &&& !server.commit_asked
        },
        Phase::Failing { .. } => {
            &&& at.request is Abort
            &&& server.durable.len() == 0
            &&& !server.commit_asked
        },
        Phase::Finished => {
            &&& at.request is Return
            &&& match at.request->Return_0 {
                Ok(value) => server.is_whole(server.durable, models) && server.result == Some(
                    value,
                ),
                Err(_) => match mode {
                    Mode::Transactional => server.durable.len() == 0 || (server.commit_asked
                        && server.is_whole(server.durable, models)),
                    Mode::Standalone => applied(server.durable) == 0 || server.is_whole(
                        server.durable,
                        models,
                    ),
                },
            }
        },
    }
}

proof fn lemma_push<T>(writes: Seq<Write<T>>, write: Write<T>)
    ensures
        archived(writes.push(write)) == (match write {
            Write::Archived(entries) => archived(writes) + entries,
            Write::Applied => archived(writes),
        }),
        applied(writes.push(write)) == applied(writes) + (if write is Applied {
            1nat
        } else {
            0nat
        }),
{
    assert(writes.push(write).drop_last() =~= writes);
}

/// Going on at `from` keeps a run sound.
proof fn lemma_resumes<T, R>(
    state: State<T, R>,
    server: Server<T, R>,
    models: Seq<BulkWriteModel<T>>,
    mode: Mode,
    start: u128,
    from: int,
)
    requires
        0 <= from <= models.len() <= usize::MAX,
        state.models == models,
        state.mode == mode,
        state.since == start,
        server.is_archiving(mode, models, Seq::empty(), from),
    ensures
        is_sound(
            Run { state: state.resumes(from).0, request: state.resumes(from).1, server },
            models,
            mode,
            start,
        ),
{
    lemma_next_target(models, from);
}

/// One reply keeps a run sound.
proof fn lemma_step<T, R>(
    at: Run<T, R>,
    reply: Reply<T, R>,
    models: Seq<BulkWriteModel<T>>,
    mode: Mode,
    start: u128,
)
    requires
        models.len() <= usize::MAX,
        is_sound(at, models, mode, start),
        at.accepts(reply),
    ensures
        is_sound(at.then_reply(reply), models, mode, start),
{
    let state = at.state;
    let next = at.then_reply(reply);
    let server = at.server;
    match state.phase {
        Phase::StartingTransaction => {
            if reply.event is Done {
                assert(archived(next.server.open) + Seq::<HistoryEntry<T>>::empty()
                    =~= Seq::<HistoryEntry<T>>::empty());
                lemma_resumes(state, next.server, models, mode, start, 0);
            }
        },
        Phase::Reading { index, entries } => {
            match reply.event {
                Event::Document(document) => {
                    let entry = state.entry(document, reply.archived_at);
                    assert(archived(server.written(mode)) + entries.push(entry) =~= (archived(
                        server.written(mode),
                    ) + entries).push(entry));
                },
                Event::Exhausted => {
                    if entries.len() == 0 {
                        assert(entries =~= Seq::empty());
                        lemma_resumes(state, next.server, models, mode, start, index + 1);
                    }
                },
                _ => {},
            }
        },
        Phase::Inserting { index } => {
            let entries = at.request->InsertHistory_0;
            lemma_push(server.written(mode), Write::Archived(entries));
            if reply.event is Done {
                assert(archived(next.server.written(mode)) + Seq::<HistoryEntry<T>>::empty()
                    =~= archived(server.written(mode)) + entries);
                lemma_resumes(state, next.server, models, mode, start, index + 1);
            } else {
                lemma_push(
                    server.written(mode),
                    Write::Archived(entries.take(reply.landed as int)),
                );
            }
        },
        Phase::Mutating => {
            lemma_push(server.written(mode), Write::Applied);
            assert(archived(server.written(mode)) + Seq::<HistoryEntry<T>>::empty() =~= archived(
                server.written(mode),
            ));
        },
        Phase::Committing { .. } => {
            assert(server.durable.len() == 0 ==> server.durable + server.open =~= server.open);
            assert(server.open.len() == 0 ==> server.durable + server.open =~= server.durable);
        },
        _ => {},
    }
}

/// Every run is sound.
pub(crate) proof fn lemma_sound<T, R>(
    models: Seq<BulkWriteModel<T>>,
    mode: Mode,
    start: u128,
    replies: Seq<Reply<T, R>>,
)
    requires
        models.len() <= usize::MAX,
        is_proper(models, mode, start, replies),
    ensures
        is_sound(run(models, mode, start, replies), models, mode, start),
    decreases replies.len(),
{
    if replies.len() == 0 {
        if mode is Standalone {
            let state = State::<T, R> {
                models,
                mode,
                since: start,
                phase: Phase::StartingSession,
            };
            let server = Server::<T, R>::idle();
            assert(archived(server.durable) + Seq::<HistoryEntry<T>>::empty() =~= Seq::<
                HistoryEntry<T>,
            >::empty());
            lemma_resumes(state, server, models, mode, start, 0);
        }
    } else {
        lemma_sound(models, mode, start, replies.drop_last());
        lemma_step(
            run(models, mode, start, replies.drop_last()),
            replies.last(),
            models,
            mode,
            start,
        );
    }
}

/// In a transaction it is all or nothing: at every moment either nothing of the run is durable,
/// or a history entry for each document that the batch matched and, once, the batch itself. No
/// document is mutated without its previous version being archived, and none is archived
/// without the mutation taking effect, however often attempts failed and were started again.
pub proof fn all_or_nothing<T, R>(
    models: Seq<BulkWriteModel<T>>,
    start: u128,
    replies: Seq<Reply<T, R>>,
)
    requires
        models.len() <= usize::MAX,
        is_proper(models, Mode::Transactional, start, replies),
    ensures
        ({
            let server = run(models, Mode::Transactional, start, replies).server;
            server.durable.len() == 0 || server.is_whole(server.durable, models)
        }),
{
    lemma_sound(models, Mode::Transactional, start, replies);
}

/// A run that returns a value has archived one entry for each document that the batch matched
/// in the last attempt, and nothing of earlier attempts, has applied the batch once and after
/// that, and returns the result that the server gave for it.
pub proof fn success_archives_each_document_once<T, R>(
    models: Seq<BulkWriteModel<T>>,
    mode: Mode,
    start: u128,
    replies: Seq<Reply<T, R>>,
)
    requires
        models.len() <= usize::MAX,
        is_proper(models, mode, start, replies),
    ensures
        ({
            let at = run(models, mode, start, replies);
            at.request matches Request::Return(Ok(value)) ==> {
                &&& at.server.is_whole(at.server.durable, models)
                &&& at.server.result == Some(value)
            }
        }),
{
    lemma_sound(models, mode, start, replies);
}

/// A transaction that returns an error has left no history and no change, unless its last
/// attempt had been asked to commit and that commit failed with an error that is not
/// transient or that calls the outcome unknown.
pub proof fn failure_leaves_nothing<T, R>(
    models: Seq<BulkWriteModel<T>>,
    start: u128,
    replies: Seq<Reply<T, R>>,
)
    requires
        models.len() <= usize::MAX,
        is_proper(models, Mode::Transactional, start, replies),
    ensures
        ({
            let at = run(models, Mode::Transactional, start, replies);
            at.request matches Request::Return(Err(_)) ==> at.server.durable.len() == 0 || {
                &&& at.server.commit_asked
                &&& replies.len() > 0
                &&& replies.last().event matches Event::Failed(err)
                &&& !error_labels(err).contains("TransientTransactionError"@) || error_labels(
                    err,
                ).contains("UnknownTransactionCommitResult"@)
            }
        }),
{
    lemma_sound(models, Mode::Transactional, start, replies);
    if replies.len() > 0 {
        lemma_sound(models, Mode::Transactional, start, replies.drop_last());
    }
}

/// The batch is sent only when every cursor was read to its end and every document that was
/// read is archived, and it has not been applied in this attempt before.
pub proof fn mutation_follows_archive<T, R>(
    models: Seq<BulkWriteModel<T>>,
    mode: Mode,
    start: u128,
    replies: Seq<Reply<T, R>>,
)
    requires
        models.len() <= usize::MAX,
        is_proper(models, mode, start, replies),
    ensures
        ({
            let at = run(models, mode, start, replies);
            at.request is Mutate ==> {
                &&& has_read(at.server.exhausted, models, models.len() as int)
                &&& preserves(archived(at.server.written(mode)), at.server.delivered, models)
                &&& applied(at.server.written(mode)) == 0
            }
        }),
{
    lemma_sound(models, mode, start, replies);
    let server = run(models, mode, start, replies).server;
    assert(archived(server.written(mode)) + Seq::<HistoryEntry<T>>::empty() =~= archived(
        server.written(mode),
    ));
}

/// A commit is asked for only when the transaction holds a history entry for each document
/// that the batch matched and, once, the batch itself; where an earlier commit of it took
/// effect although it failed, nothing is added.
pub proof fn commit_follows_mutation<T, R>(
    models: Seq<BulkWriteModel<T>>,
    mode: Mode,
    start: u128,
    replies: Seq<Reply<T, R>>,
)
    requires
        models.len() <= usize::MAX,
        is_proper(models, mode, start, replies),
    ensures
        ({
            let at = run(models, mode, start, replies);
            at.request is Commit ==> {
                &&& at.server.is_whole(at.server.durable + at.server.open, models)
                &&& at.server.durable.len() > 0 ==> at.server.open.len() == 0
            }
        }),
{
    lemma_sound(models, mode, start, replies);
    let server = run(models, mode, start, replies).server;
    assert(server.durable.len() == 0 ==> server.durable + server.open =~= server.open);
    assert(server.open.len() == 0 ==> server.durable + server.open =~= server.durable);
}

/// The entries of writes in a row are the entries of the first and then those of the rest.
pub(crate) proof fn lemma_archived_append<T>(first: Seq<Write<T>>, rest: Seq<Write<T>>)
    ensures
        archived(first + rest) == archived(first) + archived(rest),
    decreases rest.len(),
{
    if rest.len() == 0 {
        assert(first + rest =~= first);
        assert(archived(first) + archived(rest) =~= archived(first));
    } else {
        lemma_archived_append(first, rest.drop_last());
        assert((first + rest).drop_last() =~= first + rest.drop_last());
        assert((first + rest).last() == rest.last());
        match rest.last() {
            Write::Archived(entries) => {
                assert(archived(first) + archived(rest.drop_last()) + entries =~= archived(first)
                    + (archived(rest.drop_last()) + entries));
            },
            Write::Applied => {},
        }
    }
}

/// What a run has written for good stays, and so does every history entry in it: from any
/// moment of a run to any later one, the writes and the entries only grow at their end.
pub proof fn history_only_grows<T, R>(
    models: Seq<BulkWriteModel<T>>,
    mode: Mode,
    start: u128,
    replies: Seq<Reply<T, R>>,
    earlier: int,
)
    requires
        0 <= earlier <= replies.len(),
    ensures
        run(models, mode, start, replies.take(earlier)).server.durable.is_prefix_of(
            run(models, mode, start, replies).server.durable,
        ),
        archived(run(models, mode, start, replies.take(earlier)).server.durable).is_prefix_of(
            archived(run(models, mode, start, replies).server.durable),
        ),
    decreases replies.len(),
{
    let then = run(models, mode, start, replies.take(earlier)).server.durable;
    let now = run(models, mode, start, replies).server.durable;
    if earlier == replies.len() {
        assert(replies.take(earlier) =~= replies);
    } else {
        history_only_grows(models, mode, start, replies.drop_last(), earlier);
        assert(replies.drop_last().take(earlier) =~= replies.take(earlier));
    }
    let rest = now.skip(then.len() as int);
    assert(now =~= then + rest);
    lemma_archived_append(then, rest);
}

/// Without transactions the mutation never takes effect, wholly or in part, unless every
/// document that the batch matched was archived before; and nothing of a transaction is ever
/// asked for, so nothing is started again.
pub proof fn standalone_never_mutates_ahead_of_the_archive<T, R>(
    models: Seq<BulkWriteModel<T>>,
    start: u128,
    replies: Seq<Reply<T, R>>,
)
    requires
        models.len() <= usize::MAX,
        is_proper(models, Mode::Standalone, start, replies),
    ensures
        ({
            let at = run(models, Mode::Standalone, start, replies);
            &&& applied(at.server.durable) > 0 ==> at.server.is_whole(at.server.durable, models)
            &&& !(at.request is StartSession || at.request is StartTransaction
                || at.request is Commit || at.request is Abort)
        }),
{
    lemma_sound(models, Mode::Standalone, start, replies);
}

/// The batch, the mode and the clock reading that retries are counted from stay as they were
/// given, through every attempt; and a cursor is opened only for a write of the batch that
/// archives what it matches.
pub proof fn batch_is_kept<T, R>(
    models: Seq<BulkWriteModel<T>>,
    mode: Mode,
    start: u128,
    replies: Seq<Reply<T, R>>,
)
    requires
        models.len() <= usize::MAX,
        is_proper(models, mode, start, replies),
    ensures
        ({
            let at = run(models, mode, start, replies);
            &&& at.state.models == models
            &&& at.state.mode == mode
            &&& at.state.since == start
            &&& at.state.well_formed()
            &&& at.request matches Request::Find(index) ==> at.state.is_target(index as int) && !(
            models[index as int] is InsertOne)
        }),
{
    lemma_sound(models, mode, start, replies);
}

/// A batch of inserts archives nothing.
pub proof fn inserts_archive_nothing<T, R>(
    models: Seq<BulkWriteModel<T>>,
    mode: Mode,
    start: u128,
    replies: Seq<Reply<T, R>>,
)
    requires
        models.len() <= usize::MAX,
        is_proper(models, mode, start, replies),
        forall|i: int| 0 <= i < models.len() ==> (#[trigger] models[i]) is InsertOne,
    ensures
        ({
            let at = run(models, mode, start, replies);
            &&& archived(at.server.durable).len() == 0
            &&& !(at.request is Find || at.request is InsertHistory)
        }),
    decreases replies.len(),
{
    lemma_sound(models, mode, start, replies);
    let at = run(models, mode, start, replies);
    if at.server.is_whole(at.server.durable, models) {
        if archived(at.server.durable).len() > 0 {
            assert(models[at.server.delivered[0].0] is InsertOne);
        }
    } else if mode is Standalone {
        if replies.len() > 0 {
            lemma_sound(models, mode, start, replies.drop_last());
            inserts_archive_nothing(models, mode, start, replies.drop_last());
            lemma_push(
                run(models, mode, start, replies.drop_last()).server.durable,
                Write::Applied,
            );
        }
    }
}

/// A failure that the driver calls transient, at any point from the start of the transaction
/// to its commit and within the retry window, makes the whole attempt start again, with a
/// session of its own and nothing carried over. Before the commit it is answered by an abort
/// first, whatever comes of that. A commit whose outcome is unknown too is not started again
/// but asked for again, in a window of its own.
pub proof fn transient_failure_starts_again<T, R>(
    state: State<T, R>,
    err: mongodb::error::Error,
    now: u128,
    aborted: Reply<T, R>,
    archived_at: bson::DateTime,
)
    requires
        state.mode is Transactional,
        state.phase is Finding || state.phase is Reading || state.phase is Inserting
            || state.phase is Mutating || state.phase is Committing,
        state.phase is Committing ==> !error_labels(err).contains(
            "UnknownTransactionCommitResult"@,
        ),
        error_labels(err).contains("TransientTransactionError"@),
        now - state.since < 120_000_000_000,
        aborted.event is Done || aborted.event is Failed,
    ensures
        ({
            let (failed, request) = state.after(Event::Failed(err), now, archived_at);
            let again = (
                State { phase: Phase::StartingSession, ..state },
                Request::<Seq<HistoryEntry<T>>, R>::StartSession,
            );
            if state.phase is Committing {
                (failed, request) == again
            } else {
                &&& request is Abort
                &&& failed.after(aborted.event, aborted.now, aborted.archived_at) == again
            }
        }),
{
}

/// A failure of starting the session or the transaction ends the run with that error at once,
/// whatever labels it carries and whenever it comes.
pub proof fn start_failures_are_returned<T, R>(
    state: State<T, R>,
    err: mongodb::error::Error,
    now: u128,
    archived_at: bson::DateTime,
)
    requires
        state.phase is StartingSession || state.phase is StartingTransaction,
    ensures
        state.after(Event::Failed(err), now, archived_at) == (
            State { phase: Phase::Finished, ..state },
            Request::<Seq<HistoryEntry<T>>, R>::Return(Err(Error::Mongo(err))),
        ),
{
}

/// A failure between the start of the transaction and its commit that is not transient, or
/// that comes when the retry window is over, is answered by an abort, and then the run
/// returns: that error, or the error of the abort where the abort fails too.
pub proof fn other_failures_are_returned<T, R>(
    state: State<T, R>,
    err: mongodb::error::Error,
    now: u128,
    aborted: Reply<T, R>,
    archived_at: bson::DateTime,
)
    requires
        state.mode is Transactional,
        state.phase is Finding || state.phase is Reading || state.phase is Inserting
            || state.phase is Mutating,
        !error_labels(err).contains("TransientTransactionError"@) || now - state.since
            >= 120_000_000_000,
        aborted.event is Done || aborted.event is Failed,
    ensures
        ({
            let (aborting, request) = state.after(Event::Failed(err), now, archived_at);
            &&& request is Abort
            &&& aborting.after(aborted.event, aborted.now, aborted.archived_at) == (
                State { phase: Phase::Finished, ..state },
                Request::<Seq<HistoryEntry<T>>, R>::Return(
                    match aborted.event {
                        Event::Failed(abort_err) => Err(Error::Mongo(abort_err)),
                        _ => Err(Error::Mongo(err)),
                    },
                ),
            )
        }),
{
}

/// A commit of unknown outcome is asked for again within a retry window of its own. Any other
/// failure of the commit, and one after that window, is returned, unless it is transient, its
/// outcome is not unknown, and the retry window of the run is not over. A commit that
/// succeeds, at the first or a later time of asking, returns the result of the mutation.
pub proof fn commit_is_asked_again_while_unknown<T, R>(
    state: State<T, R>,
    err: mongodb::error::Error,
    now: u128,
    archived_at: bson::DateTime,
)
    requires
        state.phase is Committing,
    ensures
        ({
            let transient = error_labels(err).contains("TransientTransactionError"@);
            let unknown = error_labels(err).contains("UnknownTransactionCommitResult"@);
            let again = unknown && now - state.phase->Committing_since < 120_000_000_000;
            let from_scratch = transient && !unknown && now - state.since < 120_000_000_000;
            let next = state.after(Event::Failed(err), now, archived_at);
            &&& again ==> next == (state, Request::<Seq<HistoryEntry<T>>, R>::Commit)
            &&& !again && !from_scratch ==> next == (
                State { phase: Phase::Finished, ..state },
                Request::<Seq<HistoryEntry<T>>, R>::Return(Err(Error::Mongo(err))),
            )
        }),
        state.after(Event::Done, now, archived_at) == (
            State { phase: Phase::Finished, ..state },
            Request::<Seq<HistoryEntry<T>>, R>::Return(Ok(state.phase->value)),
        ),
{
}

/// An attempt is given up to be started again only for a transient error and within the retry
/// window that began with the run, and after a commit only where its outcome is not unknown.
pub proof fn retries_end_with_the_window<T, R>(
    models: Seq<BulkWriteModel<T>>,
    mode: Mode,
    start: u128,
    replies: Seq<Reply<T, R>>,
)
    requires
        models.len() <= usize::MAX,
        is_proper(models, mode, start, replies),
        ({
            let at = run(models, mode, start, replies);
            ||| at.state.phase is Retrying
            ||| {
                &&& at.request is StartSession
                &&& replies.len() > 0
                &&& run(models, mode, start, replies.drop_last()).state.phase is Committing
            }
        }),
    ensures
        replies.len() > 0,
        replies.last().now - start < 120_000_000_000,
        replies.last().event matches Event::Failed(err) && error_labels(err).contains(
            "TransientTransactionError"@,
        ),
        run(models, mode, start, replies).request is StartSession ==> (
        replies.last().event matches Event::Failed(err) && !error_labels(err).contains(
            "UnknownTransactionCommitResult"@,
        )),
{
    if replies.len() > 0 {
        lemma_sound(models, mode, start, replies.drop_last());
    }
}

/// Whether some write of the batch that is of the kind `operation` matches the document.
pub open spec fn is_matched<T>(
    models: Seq<BulkWriteModel<T>>,
    matches: spec_fn(BulkWriteModel<T>, T) -> bool,
    document: T,
    operation: Operation,
) -> bool {
    exists|i: int|
        0 <= i < models.len() && !((#[trigger] models[i]) is InsertOne) && kind(models[i])
            == operation && matches(
            models[i],
            document,
        )
}

/// Wherever the mutation took effect, every document that it changed or removed has its
/// previous version in the history, under an operation that matched it.
///
/// `before` and `after` are the main collection before and after the mutation, by the identity
/// of each document. A cursor that is at its end has given out every document of `before` that
/// its write matches, and the mutation changes no document that no write of the batch matches.
pub proof fn changed_documents_are_archived<T, R>(
    models: Seq<BulkWriteModel<T>>,
    mode: Mode,
    start: u128,
    replies: Seq<Reply<T, R>>,
    matches: spec_fn(BulkWriteModel<T>, T) -> bool,
    before: Map<int, T>,
    after: Map<int, T>,
    id: int,
)
    requires
        models.len() <= usize::MAX,
        is_proper(models, mode, start, replies),
        applied(run(models, mode, start, replies).server.durable) > 0,
        forall|i: int, other: int|
            #![trigger models[i], before[other]]
            run(models, mode, start, replies).server.exhausted.contains(i) && 0 <= i < models.len()
                && before.contains_key(other) && matches(models[i], before[other])
                ==> run(models, mode, start, replies).server.delivered.contains(
                (i, before[other]),
            ),
        forall|other: int| #[trigger]
            before.contains_key(other) && !(after.contains_key(other) && after[other]
                == before[other]) ==> exists|operation: Operation| #[trigger]
                is_matched(models, matches, before[other], operation),
        before.contains_key(id),
        !(after.contains_key(id) && after[id] == before[id]),
    ensures
        exists|k: int|
            0 <= k < archived(run(models, mode, start, replies).server.durable).len() && (
            #[trigger] archived(run(models, mode, start, replies).server.durable)[k]).document
                == before[id] && is_matched(
                models,
                matches,
                before[id],
                archived(run(models, mode, start, replies).server.durable)[k].operation,
            ),
{
    lemma_sound(models, mode, start, replies);
    let server = run(models, mode, start, replies).server;
    let entries = archived(server.durable);
    assert(server.is_whole(server.durable, models));
    let operation = choose|operation: Operation| #[trigger]
        is_matched(models, matches, before[id], operation);
    let i = choose|i: int|
        0 <= i < models.len() && !((#[trigger] models[i]) is InsertOne) && kind(models[i])
            == operation && matches(
            models[i],
            before[id],
        );
    assert(server.exhausted.contains(i));
    let k = choose|k: int|
        0 <= k < server.delivered.len() && server.delivered[k] == (i, before[id]);
    assert(entries[k].document == before[id]);
    assert(entries[k].operation == operation);
}

/// Wherever anything is durable of a transaction, and wherever a run without one succeeded,
/// every archived version is that of a document that the mutation reached.
///
/// `reached` are the documents of `before` that the mutation was applied to. Every document
/// that a cursor gives out is one that its write matches, and the mutation reaches every
/// document that a write of the batch matches: as writes of many documents do, and writes of
/// one document where no more than one matches.
pub proof fn archived_documents_were_reached<T, R>(
    models: Seq<BulkWriteModel<T>>,
    mode: Mode,
    start: u128,
    replies: Seq<Reply<T, R>>,
    matches: spec_fn(BulkWriteModel<T>, T) -> bool,
    before: Map<int, T>,
    reached: Set<int>,
    k: int,
)
    requires
        models.len() <= usize::MAX,
        is_proper(models, mode, start, replies),
        mode is Transactional || run(models, mode, start, replies).request matches Request::Return(
            Ok(_),
        ),
        forall|j: int|
            0 <= j < run(models, mode, start, replies).server.delivered.len() ==> exists|id: int|
                #![trigger before[id]]
                before.contains_key(id) && before[id] == (#[trigger] run(
                    models,
                    mode,
                    start,
                    replies,
                ).server.delivered[j]).1 && matches(
                    models[run(models, mode, start, replies).server.delivered[j].0],
                    before[id],
                ),
        forall|i: int, id: int|
            #![trigger models[i], before[id]]
            0 <= i < models.len() && before.contains_key(id) && matches(models[i], before[id])
                ==> reached.contains(id),
        0 <= k < archived(run(models, mode, start, replies).server.durable).len(),
    ensures
        exists|id: int|
            #![trigger before[id]]
            reached.contains(id) && before.contains_key(id) && before[id] == archived(
                run(models, mode, start, replies).server.durable,
            )[k].document,
{
    lemma_sound(models, mode, start, replies);
    let server = run(models, mode, start, replies).server;
    let entries = archived(server.durable);
    assert(server.is_whole(server.durable, models));
    assert(entries[k].document == server.delivered[k].1);
    let id = choose|id: int|
        #![trigger before[id]]
        before.contains_key(id) && before[id] == server.delivered[k].1 && matches(
            models[server.delivered[k].0],
            before[id],
        );
    assert(reached.contains(id));
}

} // verus!
