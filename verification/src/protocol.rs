//! The conversation with the server: which request follows which answer.
//!
//! Everything here is said of requests and answers alone. Taken together, the laws fix every
//! request of every run: the first one, the one after each answer, after each failure and
//! after each abort, and that an attempt which is started again goes on as the first did.

use vstd::prelude::*;

use crate::error::Error;
use crate::history::HistoryEntry;
use crate::laws::Reply;
use crate::model::BulkWriteModel;
use crate::transaction::{Event, Mode, Request};
#[allow(unused_imports)]
use crate::driver::error_labels;
#[allow(unused_imports)]
use crate::laws::{
    applied, archived, can_answer, is_pending, is_proper, kind, lemma_sound, run,
    success_archives_each_document_once,
};
#[allow(unused_imports)]
use crate::model::lemma_next_target;
#[allow(unused_imports)]
use crate::transaction::Phase;

verus! {

/// The request opens the cursor of the first write at `from` or later that is not an insert;
/// where all of them are inserts, it applies the batch.
pub open spec fn is_next<T, R>(
    request: Request<Seq<HistoryEntry<T>>, R>,
    models: Seq<BulkWriteModel<T>>,
    from: int,
) -> bool {
    match request {
        Request::Find(index) => {
            &&& from <= index < models.len()
            &&& !(models[index as int] is InsertOne)
            &&& forall|j: int| from <= j < index ==> (#[trigger] models[j]) is InsertOne
        },
        Request::Mutate => forall|j: int|
            from <= j < models.len() ==> (#[trigger] models[j]) is InsertOne,
        _ => false,
    }
}

/// A run in a transaction begins by asking for a session, and one without by opening the first
/// cursor.
pub proof fn runs_begin_with_the_session<T, R>(
    models: Seq<BulkWriteModel<T>>,
    mode: Mode,
    start: u128,
)
    requires
        models.len() <= usize::MAX,
    ensures
        ({
            let request = run::<T, R>(models, mode, start, Seq::empty()).request;
            match mode {
                Mode::Transactional => request is StartSession,
                Mode::Standalone => is_next(request, models, 0),
            }
        }),
{
    lemma_next_target(models, 0);
}

/// What follows an answer that is no failure: after the session the transaction, after the
/// transaction the first cursor, after each document the next, at the end of a cursor the
/// insert of exactly the documents it gave, or none where it gave none, then the next cursor,
/// and after the last of them the batch; after the batch the commit, and then the result that
/// the server gave for the batch. Without a transaction that result is returned at once.
pub proof fn each_answer_leads_on<T, R>(
    models: Seq<BulkWriteModel<T>>,
    mode: Mode,
    start: u128,
    replies: Seq<Reply<T, R>>,
    reply: Reply<T, R>,
)
    requires
        models.len() <= usize::MAX,
        is_proper(models, mode, start, replies),
        can_answer(run(models, mode, start, replies).request, reply.event),
    ensures
        ({
            let at = run(models, mode, start, replies);
            let next = run(models, mode, start, replies.push(reply)).request;
            match (at.request, reply.event) {
                (Request::StartSession, Event::Done) => next is StartTransaction,
                (Request::StartTransaction, Event::Done) => is_next(next, models, 0),
                (Request::Find(_), Event::Done) => next is NextDocument,
                (Request::NextDocument, Event::Document(_)) => next is NextDocument,
                (Request::NextDocument, Event::Exhausted) => if at.server.pending.len() > 0 {
                    next matches Request::InsertHistory(entries) && is_pending(
                        entries,
                        at.server.pending,
                        models[at.server.cursor],
                    )
                } else {
                    is_next(next, models, at.server.cursor + 1)
                },
                (Request::InsertHistory(_), Event::Done) => is_next(
                    next,
                    models,
                    at.server.cursor + 1,
                ),
                (Request::Mutate, Event::Mutated(value)) => match mode {
                    Mode::Transactional => next is Commit,
                    Mode::Standalone => next == Request::<Seq<HistoryEntry<T>>, R>::Return(
                        Ok(value),
                    ),
                },
                (Request::Commit, Event::Done) => at.server.result matches Some(value) && next
                    == Request::<Seq<HistoryEntry<T>>, R>::Return(Ok(value)),
                _ => true,
            }
        }),
{
    lemma_sound(models, mode, start, replies);
    assert(replies.push(reply).drop_last() =~= replies);
    let at = run(models, mode, start, replies);
    lemma_next_target(models, 0);
    match at.state.phase {
        Phase::Reading { index, .. } => lemma_next_target(models, index + 1),
        Phase::Inserting { index } => lemma_next_target(models, index + 1),
        _ => {},
    }
}

/// What follows a failure. One of starting the session or the transaction ends the run with
/// that error, and so does any failure of a run without a transaction. Any other before the
/// commit is answered by an abort. A commit of unknown outcome is asked for again within two
/// minutes of the mutation; one that failed with a transient error, and not with an unknown
/// outcome, makes the whole attempt start again within two minutes of the start of the run;
/// any other failure of it ends the run with that error.
pub proof fn each_failure_leads_on<T, R>(
    models: Seq<BulkWriteModel<T>>,
    mode: Mode,
    start: u128,
    replies: Seq<Reply<T, R>>,
    reply: Reply<T, R>,
    err: mongodb::error::Error,
)
    requires
        models.len() <= usize::MAX,
        is_proper(models, mode, start, replies),
        reply.event == Event::<T, R>::Failed(err),
    ensures
        ({
            let at = run(models, mode, start, replies);
            let next = run(models, mode, start, replies.push(reply)).request;
            let returned = Request::<Seq<HistoryEntry<T>>, R>::Return(Err(Error::Mongo(err)));
            let transient = error_labels(err).contains("TransientTransactionError"@);
            let unknown = error_labels(err).contains("UnknownTransactionCommitResult"@);
            match at.request {
                Request::StartSession | Request::StartTransaction => next == returned,
                Request::Find(_) | Request::NextDocument | Request::InsertHistory(_)
                | Request::Mutate => match mode {
                    Mode::Transactional => next is Abort,
                    Mode::Standalone => next == returned,
                },
                Request::Commit => if unknown {
                    if reply.now - at.server.mutated_at < 120_000_000_000 {
                        next is Commit
                    } else {
                        next == returned
                    }
                } else if transient && reply.now - start < 120_000_000_000 {
                    next is StartSession
                } else {
                    next == returned
                },
                _ => true,
            }
        }),
{
    lemma_sound(models, mode, start, replies);
    assert(replies.push(reply).drop_last() =~= replies);
}

/// An abort is asked for only after a failure, and whether it succeeds or not, what follows
/// goes by that failure: where it was transient and came within two minutes of the start of
/// the run, the whole attempt starts again; otherwise the run ends with that error, or with the
/// error of the abort where the abort fails too.
pub proof fn each_abort_leads_on<T, R>(
    models: Seq<BulkWriteModel<T>>,
    mode: Mode,
    start: u128,
    replies: Seq<Reply<T, R>>,
    reply: Reply<T, R>,
)
    requires
        models.len() <= usize::MAX,
        is_proper(models, mode, start, replies),
        run(models, mode, start, replies).request is Abort,
        reply.event is Done || reply.event is Failed,
    ensures
        replies.len() > 0,
        replies.last().event is Failed,
        ({
            let err = replies.last().event->Failed_0;
            let next = run(models, mode, start, replies.push(reply)).request;
            if error_labels(err).contains("TransientTransactionError"@) && replies.last().now
                - start < 120_000_000_000 {
                next is StartSession
            } else {
                next == Request::<Seq<HistoryEntry<T>>, R>::Return(
                    match reply.event {
                        Event::Failed(abort_err) => Err(Error::Mongo(abort_err)),
                        _ => Err(Error::Mongo(err)),
                    },
                )
            }
        }),
{
    lemma_sound(models, mode, start, replies);
    if replies.len() > 0 {
        lemma_sound(models, mode, start, replies.drop_last());
    } else {
        lemma_next_target(models, 0);
    }
    assert(replies.push(reply).drop_last() =~= replies);
}

/// A session is asked for again only after a failure that the driver calls transient and that
/// came within two minutes of the start of the run: after the abort that answered it, or, where
/// it was the commit that failed, at once and only if its outcome is not unknown.
pub proof fn sessions_are_asked_for_again_only_in_time<T, R>(
    models: Seq<BulkWriteModel<T>>,
    mode: Mode,
    start: u128,
    replies: Seq<Reply<T, R>>,
)
    requires
        models.len() <= usize::MAX,
        is_proper(models, mode, start, replies),
        run(models, mode, start, replies).request is StartSession,
        replies.len() > 0,
    ensures
        ({
            let n = replies.len() as int;
            ||| {
                &&& run(models, mode, start, replies.take(n - 1)).request is Commit
                &&& replies[n - 1].event matches Event::Failed(err)
                &&& error_labels(err).contains("TransientTransactionError"@)
                &&& !error_labels(err).contains("UnknownTransactionCommitResult"@)
                &&& replies[n - 1].now - start < 120_000_000_000
            }
            ||| {
                &&& n >= 2
                &&& run(models, mode, start, replies.take(n - 1)).request is Abort
                &&& replies[n - 2].event matches Event::Failed(err)
                &&& error_labels(err).contains("TransientTransactionError"@)
                &&& replies[n - 2].now - start < 120_000_000_000
            }
        }),
{
    let n = replies.len() as int;
    let init = replies.drop_last();
    let last = replies.last();
    assert(replies.take(n - 1) =~= init);
    assert(init.push(last) =~= replies);
    lemma_sound(models, mode, start, replies);
    lemma_sound(models, mode, start, init);
    each_answer_leads_on(models, mode, start, init, last);
    match last.event {
        Event::Failed(err) => each_failure_leads_on(models, mode, start, init, last, err),
        _ => {},
    }
    if run(models, mode, start, init).request is Abort {
        each_abort_leads_on(models, mode, start, init, last);
        assert(init.last() == replies[n - 2]);
    }
}

/// An attempt that is started again goes on exactly as a run that has just begun: whatever the
/// answers from there on, the requests are those of the first attempt, and nothing of earlier
/// attempts is in them.
pub proof fn attempts_start_from_scratch<T, R>(
    models: Seq<BulkWriteModel<T>>,
    mode: Mode,
    start: u128,
    replies: Seq<Reply<T, R>>,
    more: Seq<Reply<T, R>>,
)
    requires
        models.len() <= usize::MAX,
        is_proper(models, mode, start, replies),
        run(models, mode, start, replies).request is StartSession,
    ensures
        run(models, mode, start, replies + more).request == run(models, mode, start, more).request,
    decreases more.len(),
{
    lemma_from_scratch(models, mode, start, replies, more);
}

proof fn lemma_from_scratch<T, R>(
    models: Seq<BulkWriteModel<T>>,
    mode: Mode,
    start: u128,
    replies: Seq<Reply<T, R>>,
    more: Seq<Reply<T, R>>,
)
    requires
        models.len() <= usize::MAX,
        is_proper(models, mode, start, replies),
        run(models, mode, start, replies).request is StartSession,
    ensures
        run(models, mode, start, replies + more).request == run(models, mode, start, more).request,
        run(models, mode, start, replies + more).state == run(models, mode, start, more).state,
    decreases more.len(),
{
    if more.len() == 0 {
        assert(replies + more =~= replies);
        lemma_sound(models, mode, start, replies);
        lemma_sound::<T, R>(models, mode, start, Seq::empty());
        assert(more =~= Seq::empty());
        lemma_next_target(models, 0);
        if mode is Standalone {
            assert(false);
        }
    } else {
        lemma_from_scratch(models, mode, start, replies, more.drop_last());
        assert((replies + more).drop_last() =~= replies + more.drop_last());
        assert((replies + more).last() == more.last());
    }
}

/// In a run that uses a transaction, cursors, documents, history inserts, the batch and the
/// commit are asked for only while a session is there and a transaction is open in it: in the
/// same attempt a session was asked for and started, right after that a transaction, and no
/// other session, transaction or abort was asked for since.
pub proof fn everything_is_asked_within_the_transaction<T, R>(
    models: Seq<BulkWriteModel<T>>,
    start: u128,
    replies: Seq<Reply<T, R>>,
)
    requires
        models.len() <= usize::MAX,
        is_proper(models, Mode::Transactional, start, replies),
        ({
            let request = run(models, Mode::Transactional, start, replies).request;
            request is Find || request is NextDocument || request is InsertHistory
                || request is Mutate || request is Commit
        }),
    ensures
        run(models, Mode::Transactional, start, replies).server.in_session,
        run(models, Mode::Transactional, start, replies).server.in_transaction,
        exists|s: int| #[trigger] is_opened_at(models, start, replies, s),
    decreases replies.len(),
{
    let mode = Mode::Transactional;
    lemma_sound(models, mode, start, replies);
    let n = replies.len() as int;
    if n == 0 {
        runs_begin_with_the_session::<T, R>(models, mode, start);
        assert(replies =~= Seq::empty());
    } else {
        let init = replies.drop_last();
        let last = replies.last();
        let before = run(models, mode, start, init);
        assert(init.push(last) =~= replies);
        assert(replies.take(n) =~= replies);
        lemma_sound(models, mode, start, init);
        match last.event {
            Event::Failed(err) => each_failure_leads_on(models, mode, start, init, last, err),
            _ => {},
        }
        each_answer_leads_on(models, mode, start, init, last);
        if before.request is Abort {
            each_abort_leads_on(models, mode, start, init, last);
        }
        if before.request is StartTransaction {
            assert(last.event is Done);
            lemma_transaction_follows_session(models, start, init);
            let s = n - 2;
            assert(init.take(s) =~= replies.take(s));
            assert(init =~= replies.take(s + 1));
            assert forall|j: int| s + 2 <= j <= n implies !(run(
                models,
                mode,
                start,
                #[trigger] replies.take(j),
            ).request is StartSession) && !(run(models, mode, start, replies.take(j)).request
                is StartTransaction) && !(run(models, mode, start, replies.take(j)).request
                is Abort) by {
                assert(replies.take(j) =~= replies);
            }
            assert(is_opened_at(models, start, replies, s));
        } else {
            everything_is_asked_within_the_transaction(models, start, init);
            let s = choose|s: int| #[trigger] is_opened_at(models, start, init, s);
            assert(init.take(s) =~= replies.take(s));
            assert(init.take(s + 1) =~= replies.take(s + 1));
            assert forall|j: int| s + 2 <= j <= n implies !(run(
                models,
                mode,
                start,
                #[trigger] replies.take(j),
            ).request is StartSession) && !(run(models, mode, start, replies.take(j)).request
                is StartTransaction) && !(run(models, mode, start, replies.take(j)).request
                is Abort) by {
                if j < n {
                    assert(init.take(j) =~= replies.take(j));
                }
            }
            assert(is_opened_at(models, start, replies, s));
        }
    }
}

/// The attempt that the run is in began with reply `s`: a session was started by it and a
/// transaction by the next, and neither these nor an abort was asked for since.
pub open spec fn is_opened_at<T, R>(
    models: Seq<BulkWriteModel<T>>,
    start: u128,
    replies: Seq<Reply<T, R>>,
    s: int,
) -> bool {
    let mode = Mode::Transactional;
    &&& 0 <= s
    &&& s + 2 <= replies.len()
    &&& run(models, mode, start, replies.take(s)).request is StartSession
    &&& replies[s].event is Done
    &&& run(models, mode, start, replies.take(s + 1)).request is StartTransaction
    &&& replies[s + 1].event is Done
    &&& forall|j: int|
        s + 2 <= j <= replies.len() ==> {
            let request = run(models, mode, start, #[trigger] replies.take(j)).request;
            !(request is StartSession) && !(request is StartTransaction) && !(request is Abort)
        }
}

/// A transaction is asked for only when a session was just started.
proof fn lemma_transaction_follows_session<T, R>(
    models: Seq<BulkWriteModel<T>>,
    start: u128,
    replies: Seq<Reply<T, R>>,
)
    requires
        models.len() <= usize::MAX,
        is_proper(models, Mode::Transactional, start, replies),
        run(models, Mode::Transactional, start, replies).request is StartTransaction,
    ensures
        replies.len() > 0,
        run(models, Mode::Transactional, start, replies.take(replies.len() - 1)).request
            is StartSession,
        replies.last().event is Done,
{
    let mode = Mode::Transactional;
    if replies.len() == 0 {
        runs_begin_with_the_session::<T, R>(models, mode, start);
        assert(replies =~= Seq::empty());
    } else {
        let init = replies.drop_last();
        let last = replies.last();
        assert(init.push(last) =~= replies);
        assert(replies.take(replies.len() - 1) =~= init);
        lemma_sound(models, mode, start, replies);
        lemma_sound(models, mode, start, init);
        match last.event {
            Event::Failed(err) => each_failure_leads_on(models, mode, start, init, last, err),
            _ => {},
        }
        each_answer_leads_on(models, mode, start, init, last);
        if run(models, mode, start, init).request is Abort {
            each_abort_leads_on(models, mode, start, init, last);
        }
    }
}

/// Nothing is never inserted: every insert into the history that a run asks for holds an entry
/// at least, and its entries are those of the cursor that was just read to its end.
pub proof fn inserts_hold_what_the_cursor_gave<T, R>(
    models: Seq<BulkWriteModel<T>>,
    mode: Mode,
    start: u128,
    replies: Seq<Reply<T, R>>,
)
    requires
        models.len() <= usize::MAX,
        is_proper(models, mode, start, replies),
    ensures
        ({
            let at = run(models, mode, start, replies);
            at.request matches Request::InsertHistory(entries) ==> {
                &&& entries.len() > 0
                &&& 0 <= at.server.cursor < models.len()
                &&& is_pending(entries, at.server.pending, models[at.server.cursor])
                &&& at.server.exhausted.contains(at.server.cursor)
            }
        }),
{
    lemma_sound(models, mode, start, replies);
}

/// A run takes every answer that its request can get, whatever it has read so far, and no
/// other: any document and the end of the cursor while it reads, any result of the batch, and a
/// failure of whatever it has asked for.
pub proof fn every_answer_is_accepted<T, R>(
    models: Seq<BulkWriteModel<T>>,
    mode: Mode,
    start: u128,
    replies: Seq<Reply<T, R>>,
    event: Event<T, R>,
)
    requires
        models.len() <= usize::MAX,
        is_proper(models, mode, start, replies),
    ensures
        ({
            let at = run(models, mode, start, replies);
            at.state.accepts(event) <==> match at.request {
                Request::NextDocument => event is Document || event is Exhausted
                    || event is Failed,
                Request::Mutate => event is Mutated || event is Failed,
                Request::Return(_) => false,
                _ => event is Done || event is Failed,
            }
        }),
{
    lemma_sound(models, mode, start, replies);
}

/// The documents that the first `end` writes of the batch match, inserts aside, each with the
/// position of its write.
pub open spec fn matched<T>(
    models: Seq<BulkWriteModel<T>>,
    found: Seq<Seq<T>>,
    end: int,
) -> Seq<(int, T)>
    decreases end,
{
    if end <= 0 {
        Seq::empty()
    } else if models[end - 1] is InsertOne {
        matched(models, found, end - 1)
    } else {
        matched(models, found, end - 1) + found[end - 1].map_values(
            |document: T| (end - 1, document),
        )
    }
}

/// One reply more.
proof fn lemma_reply<T, R>(
    models: Seq<BulkWriteModel<T>>,
    mode: Mode,
    start: u128,
    replies: Seq<Reply<T, R>>,
    reply: Reply<T, R>,
)
    requires
        models.len() <= usize::MAX,
        is_proper(models, mode, start, replies),
        can_answer(run(models, mode, start, replies).request, reply.event),
        !(reply.event is Failed),
    ensures
        is_proper(models, mode, start, replies.push(reply)),
        run(models, mode, start, replies.push(reply)).server == run(
            models,
            mode,
            start,
            replies,
        ).server.answers(run(models, mode, start, replies).request, reply),
{
    assert(replies.push(reply).drop_last() =~= replies);
}

/// A cursor can give out any documents, and any number of them.
proof fn lemma_reads<T, R>(
    models: Seq<BulkWriteModel<T>>,
    mode: Mode,
    start: u128,
    replies: Seq<Reply<T, R>>,
    documents: Seq<T>,
    now: u128,
    date: bson::DateTime,
) -> (longer: Seq<Reply<T, R>>)
    requires
        models.len() <= usize::MAX,
        is_proper(models, mode, start, replies),
        run(models, mode, start, replies).request is NextDocument,
    ensures
        is_proper(models, mode, start, longer),
        run(models, mode, start, longer).request is NextDocument,
        ({
            let before = run(models, mode, start, replies).server;
            let after = run(models, mode, start, longer).server;
            &&& after.cursor == before.cursor
            &&& after.pending.len() == before.pending.len() + documents.len()
            &&& after.delivered == before.delivered + documents.map_values(
                |document: T| (before.cursor, document),
            )
        }),
    decreases documents.len(),
{
    let server = run(models, mode, start, replies).server;
    let pairs = documents.map_values(|document: T| (server.cursor, document));
    if documents.len() == 0 {
        assert(server.delivered + pairs =~= server.delivered);
        replies
    } else {
        let longer = lemma_reads(models, mode, start, replies, documents.drop_last(), now, date);
        let reply = Reply {
            event: Event::Document(documents.last()),
            now,
            archived_at: date,
            landed: 0,
        };
        lemma_reply(models, mode, start, longer, reply);
        each_answer_leads_on(models, mode, start, longer, reply);
        assert(server.delivered + pairs =~= run(models, mode, start, longer).server.delivered.push(
            (server.cursor, documents.last()),
        ));
        longer.push(reply)
    }
}

/// The writes before `end` can be archived, whatever they match.
proof fn lemma_archives_up_to<T, R>(
    models: Seq<BulkWriteModel<T>>,
    mode: Mode,
    start: u128,
    found: Seq<Seq<T>>,
    now: u128,
    date: bson::DateTime,
    end: int,
) -> (replies: Seq<Reply<T, R>>)
    requires
        0 <= end <= models.len() <= usize::MAX,
        found.len() == models.len(),
    ensures
        is_proper(models, mode, start, replies),
        is_next(run(models, mode, start, replies).request, models, end),
        run(models, mode, start, replies).server.delivered == matched(models, found, end),
    decreases end,
{
    let done = Reply::<T, R> { event: Event::Done, now, archived_at: date, landed: 0 };
    if end == 0 {
        let none = Seq::<Reply<T, R>>::empty();
        runs_begin_with_the_session::<T, R>(models, mode, start);
        match mode {
            Mode::Transactional => {
                lemma_reply(models, mode, start, none, done);
                each_answer_leads_on(models, mode, start, none, done);
                lemma_reply(models, mode, start, none.push(done), done);
                each_answer_leads_on(models, mode, start, none.push(done), done);
                none.push(done).push(done)
            },
            Mode::Standalone => none,
        }
    } else {
        let before = lemma_archives_up_to(models, mode, start, found, now, date, end - 1);
        if models[end - 1] is InsertOne {
            before
        } else {
            assert(run(models, mode, start, before).request == Request::<
                Seq<HistoryEntry<T>>,
                R,
            >::Find((end - 1) as usize));
            lemma_reply(models, mode, start, before, done);
            each_answer_leads_on(models, mode, start, before, done);
            let opened = before.push(done);
            let read = lemma_reads(models, mode, start, opened, found[end - 1], now, date);
            let exhausted = Reply::<T, R> {
                event: Event::Exhausted,
                now,
                archived_at: date,
                landed: 0,
            };
            lemma_reply(models, mode, start, read, exhausted);
            each_answer_leads_on(models, mode, start, read, exhausted);
            let through = read.push(exhausted);
            if run(models, mode, start, read).server.pending.len() > 0 {
                lemma_reply(models, mode, start, through, done);
                each_answer_leads_on(models, mode, start, through, done);
                through.push(done)
            } else {
                through
            }
        }
    }
}

/// Where nothing fails, a run succeeds, whatever the batch and whatever each of its writes
/// matches: for any documents, and any number of them, that the cursors give out, and any
/// result of the batch, there are answers to all requests of the run after which it returns
/// that result, with one entry in the history for each of these documents, in order and under
/// the operation of its write, and the batch applied once.
pub proof fn undisturbed_runs_succeed<T, R>(
    models: Seq<BulkWriteModel<T>>,
    mode: Mode,
    start: u128,
    found: Seq<Seq<T>>,
    value: R,
    now: u128,
    date: bson::DateTime,
) -> (replies: Seq<Reply<T, R>>)
    requires
        models.len() <= usize::MAX,
        found.len() == models.len(),
    ensures
        is_proper(models, mode, start, replies),
        run(models, mode, start, replies).request == Request::<Seq<HistoryEntry<T>>, R>::Return(
            Ok(value),
        ),
        applied(run(models, mode, start, replies).server.durable) == 1,
        ({
            let entries = archived(run(models, mode, start, replies).server.durable);
            let documents = matched(models, found, models.len() as int);
            &&& entries.len() == documents.len()
            &&& forall|k: int|
                #![trigger entries[k]]
                0 <= k < entries.len() ==> {
                    &&& entries[k].document == documents[k].1
                    &&& entries[k].operation == kind(models[documents[k].0])
                }
        }),
{
    let end = models.len() as int;
    let before = lemma_archives_up_to(models, mode, start, found, now, date, end);
    let mutated = Reply::<T, R> {
        event: Event::Mutated(value),
        now,
        archived_at: date,
        landed: 0,
    };
    lemma_reply(models, mode, start, before, mutated);
    each_answer_leads_on(models, mode, start, before, mutated);
    let through = before.push(mutated);
    let replies = match mode {
        Mode::Transactional => {
            let done = Reply::<T, R> { event: Event::Done, now, archived_at: date, landed: 0 };
            lemma_reply(models, mode, start, through, done);
            each_answer_leads_on(models, mode, start, through, done);
            through.push(done)
        },
        Mode::Standalone => through,
    };
    success_archives_each_document_once(models, mode, start, replies);
    let server = run(models, mode, start, replies).server;
    assert(server.delivered == matched(models, found, end));
    replies
}

} // verus!
