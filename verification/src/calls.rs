//! What each call does, in terms of what goes in and what comes out.

use vstd::prelude::*;

use crate::collection::{Handles, TrackedCollection};
use crate::error::Error;
use crate::history::{HistoryEntry, Operation};
use crate::model::BulkWriteModel;
use crate::transaction::{Event, Mode, Phase, Request, State, Transaction, Turn};
#[allow(unused_imports)]
use crate::driver::{date_millis, error_labels, is_named};
#[allow(unused_imports)]
use crate::laws::kind;
#[allow(unused_imports)]
use crate::model::lemma_next_target;
#[allow(unused_imports)]
use crate::protocol::is_next;
#[allow(unused_imports)]
use crate::retention::{cutoff_at, history_cutoff};
#[allow(unused_imports)]
use crate::retry::{before_deadline, is_transient_transaction_error, is_unknown_commit_result};

verus! {

/// Two minutes are the time for retries: a clock reading lies before the deadline exactly
/// while fewer than 120 seconds have passed.
pub proof fn deadlines_lie_two_minutes_ahead(since: u128, now: u128, before: bool)
    requires
        call_ensures(before_deadline, (since, now), before),
    ensures
        before <==> now - since < 120_000_000_000,
{
}

/// An error is transient, or leaves the outcome of a commit unknown, exactly if it carries the
/// driver's label for that.
pub proof fn labels_decide(err: mongodb::error::Error, transient: bool, unknown: bool)
    requires
        call_ensures(is_transient_transaction_error, (&err,), transient),
        call_ensures(is_unknown_commit_result, (&err,), unknown),
    ensures
        transient <==> error_labels(err).contains("TransientTransactionError"@),
        unknown <==> error_labels(err).contains("UnknownTransactionCommitResult"@),
{
}

/// The dates before the cutoff are those that are older than the given age, and no others.
pub proof fn cutoffs_separate_by_age(
    now: bson::DateTime,
    age_millis: u128,
    cutoff: bson::DateTime,
    date: bson::DateTime,
)
    requires
        call_ensures(cutoff_at, (now, age_millis), cutoff),
    ensures
        date_millis(date) < date_millis(cutoff) <==> date_millis(now) - date_millis(date)
            > age_millis,
{
}

/// The cutoff for the history separates by age at the current date.
pub proof fn history_is_cut_by_its_present_age(age_millis: u128, cutoff: bson::DateTime) -> (now:
    bson::DateTime)
    requires
        call_ensures(history_cutoff, (age_millis,), cutoff),
    ensures
        call_ensures(bson::DateTime::now, (), now),
        forall|date: bson::DateTime|
            #![trigger date_millis(date)]
            date_millis(date) < date_millis(cutoff) <==> date_millis(now) - date_millis(date)
                > age_millis,
{
    choose|now: bson::DateTime| #[trigger]
        call_ensures(bson::DateTime::now, (), now) && date_millis(cutoff) == (if date_millis(now)
            - age_millis >= i64::MIN {
            date_millis(now) - age_millis
        } else {
            i64::MIN as int
        })
}

/// Every write but an insert archives what its own filter matches, an update as an update, a
/// replace as a replace and a delete as a delete; an insert archives nothing.
pub proof fn writes_archive_by_their_own_filter<T>(
    model: BulkWriteModel<T>,
    operation: Option<Operation>,
    found_by: Option<&bson::Document>,
)
    requires
        call_ensures(BulkWriteModel::<T>::operation, (&model,), operation),
        call_ensures(BulkWriteModel::<T>::filter, (&model,), found_by),
    ensures
        operation == model.archived_as(),
        operation == match model {
            BulkWriteModel::InsertOne(_) => None,
            BulkWriteModel::UpdateOne { .. } => Some(Operation::Update),
            BulkWriteModel::UpdateMany { .. } => Some(Operation::Update),
            BulkWriteModel::ReplaceOne { .. } => Some(Operation::Replace),
            BulkWriteModel::DeleteOne { .. } => Some(Operation::Delete),
            BulkWriteModel::DeleteMany { .. } => Some(Operation::Delete),
        },
        match model {
            BulkWriteModel::InsertOne(_) => found_by is None,
            BulkWriteModel::UpdateOne { filter, .. } => found_by == Some(&filter),
            BulkWriteModel::UpdateMany { filter, .. } => found_by == Some(&filter),
            BulkWriteModel::ReplaceOne { filter, .. } => found_by == Some(&filter),
            BulkWriteModel::DeleteOne { filter } => found_by == Some(&filter),
            BulkWriteModel::DeleteMany { filter } => found_by == Some(&filter),
        },
        model.selected_by() == match found_by {
            Some(filter) => Some(*filter),
            None => None,
        },
{
}

/// What is said of a request is said of what is asked: requests that are said to be equal ask
/// for the same thing, with the same entries or the same result in them.
pub proof fn requests_are_what_is_asked<T, R>(request: Request<Vec<HistoryEntry<T>>, R>)
    ensures
        match request {
            Request::StartSession => request@ is StartSession,
            Request::StartTransaction => request@ is StartTransaction,
            Request::Find(index) => request@ == Request::<Seq<HistoryEntry<T>>, R>::Find(index),
            Request::NextDocument => request@ is NextDocument,
            Request::InsertHistory(entries) => request@ == Request::<
                Seq<HistoryEntry<T>>,
                R,
            >::InsertHistory(entries@),
            Request::Mutate => request@ is Mutate,
            Request::Commit => request@ is Commit,
            Request::Abort => request@ is Abort,
            Request::Return(outcome) => request@ == Request::<Seq<HistoryEntry<T>>, R>::Return(
                outcome,
            ),
        },
{
}

/// What is said of a phase is said of what the run remembers in it.
pub proof fn phases_are_what_is_remembered<T, R>(phase: Phase<Vec<HistoryEntry<T>>, R>)
    ensures
        match phase {
            Phase::StartingSession => phase@ is StartingSession,
            Phase::StartingTransaction => phase@ is StartingTransaction,
            Phase::Finding { index } => phase@ == Phase::<Seq<HistoryEntry<T>>, R>::Finding {
                index,
            },
            Phase::Reading { index, entries } => phase@ == Phase::<
                Seq<HistoryEntry<T>>,
                R,
            >::Reading { index, entries: entries@ },
            Phase::Inserting { index } => phase@ == Phase::<Seq<HistoryEntry<T>>, R>::Inserting {
                index,
            },
            Phase::Mutating => phase@ is Mutating,
            Phase::Committing { value, since } => phase@ == Phase::<
                Seq<HistoryEntry<T>>,
                R,
            >::Committing { value, since },
            Phase::Retrying => phase@ is Retrying,
            Phase::Failing { err } => phase@ == Phase::<Seq<HistoryEntry<T>>, R>::Failing { err },
            Phase::Finished => phase@ is Finished,
        },
{
}

/// The batch, the mode and the start of the run are the same in both states.
pub open spec fn is_same_run<T, R>(one: State<T, R>, other: State<T, R>) -> bool {
    one.models == other.models && one.mode == other.mode && one.since == other.since
}

/// A run begins with the batch, the mode and the clock reading that it is given: by asking for
/// a session, or, without transactions, by opening the first cursor.
pub proof fn runs_begin_with_what_is_given<T, R>(
    models: Vec<BulkWriteModel<T>>,
    mode: Mode,
    now: u128,
    turn: Turn<T, R>,
)
    requires
        models@.len() <= usize::MAX,
        call_ensures(Transaction::<T, R>::begin, (models, mode, now), turn),
    ensures
        turn.0@.models == models@,
        turn.0@.mode == mode,
        turn.0@.since == now,
        match mode {
            Mode::Transactional => turn.1@ is StartSession,
            Mode::Standalone => is_next(turn.1@, models@, 0),
        },
{
    lemma_next_target(models@, 0);
}

/// A run accepts every answer to what it waits for: any document and the end of the cursor
/// while it reads one, any result of the batch once that is sent, and a failure in every phase
/// but the last.
pub proof fn answers_are_accepted_by_phase<T, R>(
    transaction: Transaction<T, R>,
    event: Event<T, R>,
    accepted: bool,
)
    requires
        call_ensures(Transaction::<T, R>::accepts, (&transaction, &event), accepted),
    ensures
        accepted == transaction@.accepts(event),
        accepted <==> match event {
            Event::Failed(_) => !(transaction@.phase is Finished),
            Event::Document(_) | Event::Exhausted => transaction@.phase is Reading,
            Event::Mutated(_) => transaction@.phase is Mutating,
            Event::Done => !(transaction@.phase is Reading || transaction@.phase is Mutating
                || transaction@.phase is Finished),
        },
{
}

/// A step goes by its event alone: a success, a document under the current date, the end of a
/// cursor, a result, or a failure by the labels of its error.
pub proof fn steps_go_by_their_event<T, R>(
    transaction: Transaction<T, R>,
    event: Event<T, R>,
    now: u128,
    turn: Turn<T, R>,
)
    requires
        call_ensures(Transaction::<T, R>::step, (transaction, event, now), turn),
    ensures
        ({
            let next = (turn.0@, turn.1@);
            match event {
                Event::Done => next == transaction@.done(),
                Event::Document(document) => exists|date: bson::DateTime|
                    call_ensures(bson::DateTime::now, (), date) && next
                        == #[trigger] transaction@.reads(document, date),
                Event::Exhausted => next == transaction@.exhausts(),
                Event::Mutated(value) => next == transaction@.mutates(value, now),
                Event::Failed(err) => next == transaction@.fails(
                    err,
                    error_labels(err).contains("TransientTransactionError"@),
                    error_labels(err).contains("UnknownTransactionCommitResult"@),
                    now,
                ),
            }
        }),
{
    let archived_at = choose|archived_at: bson::DateTime|
        #![trigger transaction@.after(event, now, archived_at)]
        (turn.0@, turn.1@) == transaction@.after(event, now, archived_at) && (event is Document
            ==> call_ensures(bson::DateTime::now, (), archived_at));
    match event {
        Event::Document(document) => {
            assert((turn.0@, turn.1@) == transaction@.reads(document, archived_at));
        },
        _ => {},
    }
}

/// A success leads from the session to the transaction, from there to the first cursor, from
/// an open cursor to its documents, from an insert to the next cursor, from the commit to the
/// result, and from an abort to a new session or to the error that it answered.
pub proof fn successes_lead_on<T, R>(transaction: Transaction<T, R>, turn: Turn<T, R>)
    requires
        transaction@.models.len() <= usize::MAX,
        transaction@.phase matches Phase::Inserting { index } ==> index
            < transaction@.models.len(),
        !(transaction@.phase is Reading || transaction@.phase is Mutating
            || transaction@.phase is Finished),
        call_ensures(Transaction::<T, R>::succeed, (transaction,), turn),
    ensures
        is_same_run(turn.0@, transaction@),
        match transaction@.phase {
            Phase::StartingSession => turn.1@ is StartTransaction,
            Phase::StartingTransaction => is_next(turn.1@, transaction@.models, 0),
            Phase::Finding { .. } => turn.1@ is NextDocument,
            Phase::Inserting { index } => is_next(turn.1@, transaction@.models, index + 1),
            Phase::Committing { value, .. } => turn.1@ == Request::<
                Seq<HistoryEntry<T>>,
                R,
            >::Return(Ok(value)),
            Phase::Failing { err } => turn.1@ == Request::<Seq<HistoryEntry<T>>, R>::Return(
                Err(Error::Mongo(err)),
            ),
            _ => turn.1@ is StartSession,
        },
        transaction@.phase matches Phase::Finding { index } ==> turn.0@.phase == (Phase::<
            Seq<HistoryEntry<T>>,
            R,
        >::Reading { index, entries: Seq::empty() }),
{
    lemma_next_target(transaction@.models, 0);
    match transaction@.phase {
        Phase::Inserting { index } => lemma_next_target(transaction@.models, index + 1),
        _ => {},
    }
}

/// A document that was read becomes one entry more of its cursor, under the given date and the
/// operation of the write, and the cursor is advanced.
pub proof fn documents_become_entries<T, R>(
    transaction: Transaction<T, R>,
    document: T,
    archived_at: bson::DateTime,
    turn: Turn<T, R>,
    index: usize,
    entries: Seq<HistoryEntry<T>>,
)
    requires
        index < transaction@.models.len(),
        !(transaction@.models[index as int] is InsertOne),
        transaction@.phase == (Phase::<Seq<HistoryEntry<T>>, R>::Reading { index, entries }),
        call_ensures(Transaction::<T, R>::record, (transaction, document, archived_at), turn),
    ensures
        is_same_run(turn.0@, transaction@),
        turn.1@ is NextDocument,
        ({
            let operation = kind(transaction@.models[index as int]);
            turn.0@.phase == Phase::<Seq<HistoryEntry<T>>, R>::Reading {
                index,
                entries: entries.push(HistoryEntry { archived_at, operation, document }),
            }
        }),
{
}

/// At the end of a cursor all that it gave is inserted into the history; where it gave nothing,
/// nothing is inserted, and the next cursor is opened or the batch is applied.
pub proof fn cursors_end_in_an_insert<T, R>(
    transaction: Transaction<T, R>,
    turn: Turn<T, R>,
    index: usize,
    entries: Seq<HistoryEntry<T>>,
)
    requires
        index < transaction@.models.len() <= usize::MAX,
        transaction@.phase == (Phase::<Seq<HistoryEntry<T>>, R>::Reading { index, entries }),
        call_ensures(Transaction::<T, R>::exhaust, (transaction,), turn),
    ensures
        is_same_run(turn.0@, transaction@),
        if entries.len() > 0 {
            turn.1@ == Request::<Seq<HistoryEntry<T>>, R>::InsertHistory(entries)
        } else {
            is_next(turn.1@, transaction@.models, index + 1)
        },
{
    lemma_next_target(transaction@.models, index + 1);
}

/// After the batch the transaction is committed, and the time for commits is counted from
/// there; without a transaction the result is returned.
pub proof fn the_batch_leads_to_the_commit<T, R>(
    transaction: Transaction<T, R>,
    value: R,
    now: u128,
    turn: Turn<T, R>,
)
    requires
        transaction@.phase is Mutating,
        call_ensures(Transaction::<T, R>::apply, (transaction, value, now), turn),
    ensures
        is_same_run(turn.0@, transaction@),
        match transaction@.mode {
            Mode::Transactional => {
                &&& turn.1@ is Commit
                &&& turn.0@.phase == Phase::<Seq<HistoryEntry<T>>, R>::Committing {
                    value,
                    since: now,
                }
            },
            Mode::Standalone => turn.1@ == Request::<Seq<HistoryEntry<T>>, R>::Return(Ok(value)),
        },
{
}

/// A failure to start the session or the transaction is returned, whatever its labels. One
/// before the commit is answered by an abort, after which the attempt is started again only if
/// the failure was transient and came within two minutes of the start of the run. A commit of
/// unknown outcome is asked for again within two minutes of the first; one that failed with a
/// transient error and no unknown outcome starts the attempt again within two minutes of the
/// start of the run. Every other failure is returned, as is every failure of a run without a
/// transaction, and that of an abort which no new attempt follows.
pub proof fn failures_go_by_labels_and_time<T, R>(
    transaction: Transaction<T, R>,
    err: mongodb::error::Error,
    transient: bool,
    unknown: bool,
    now: u128,
    turn: Turn<T, R>,
)
    requires
        !(transaction@.phase is Finished),
        call_ensures(Transaction::<T, R>::fail, (transaction, err, transient, unknown, now), turn),
    ensures
        is_same_run(turn.0@, transaction@),
        ({
            let start = transaction@.since;
            let returned = Request::<Seq<HistoryEntry<T>>, R>::Return(Err(Error::Mongo(err)));
            match transaction@.phase {
                Phase::StartingSession | Phase::StartingTransaction => turn.1@ == returned,
                Phase::Failing { .. } => turn.1@ == returned,
                Phase::Retrying => turn.1@ is StartSession,
                Phase::Committing { since, .. } => if unknown {
                    if now - since < 120_000_000_000 {
                        turn.1@ is Commit && turn.0@ == transaction@
                    } else {
                        turn.1@ == returned
                    }
                } else if transient && now - start < 120_000_000_000 {
                    turn.1@ is StartSession && turn.0@.phase is StartingSession
                } else {
                    turn.1@ == returned
                },
                _ => match transaction@.mode {
                    Mode::Standalone => turn.1@ == returned,
                    Mode::Transactional => {
                        &&& turn.1@ is Abort
                        &&& if transient && now - start < 120_000_000_000 {
                            turn.0@.phase is Retrying
                        } else {
                            turn.0@.phase == Phase::<Seq<HistoryEntry<T>>, R>::Failing { err }
                        }
                    },
                },
            }
        }),
{
}

/// The handles are those of the database: a client that the database gave, and two collections
/// that it opened under the two names and that go by them.
pub proof fn handles_are_those_of_the_database<T: Send + Sync>(
    handles: Handles<T>,
    db: mongodb::Database,
    collection_name: Seq<char>,
    history_name: Seq<char>,
)
    requires
        handles.wrap(db, collection_name, history_name),
    ensures
        exists|own: &mongodb::Client| #[trigger]
            call_ensures(mongodb::Database::client, (&db,), own) && call_ensures(
                <mongodb::Client as Clone>::clone,
                (own,),
                handles.client,
            ),
        exists|text: &str|
            text@ == collection_name && #[trigger] call_ensures(
                mongodb::Database::collection::<T>,
                (&db, text),
                handles.collection,
            ),
        exists|text: &str|
            text@ == history_name && #[trigger] call_ensures(
                mongodb::Database::collection::<HistoryEntry<T>>,
                (&db, text),
                handles.history,
            ),
        forall|answer: &str| #[trigger]
            call_ensures(mongodb::Collection::<T>::name, (&handles.collection,), answer)
                ==> answer@ == collection_name,
        forall|answer: &str| #[trigger]
            call_ensures(
                mongodb::Collection::<HistoryEntry<T>>::name,
                (&handles.history,),
                answer,
            ) ==> answer@ == history_name,
{
}

/// A collection that is opened by its name alone goes by that name, keeps its history under the
/// same name with `_history` after it, and uses transactions unless it is opened for a
/// standalone server.
pub proof fn histories_are_named_after_their_collection<T: Send + Sync>(
    db: mongodb::Database,
    name: &str,
    opened: TrackedCollection<T>,
    standalone: bool,
    collection_name: &str,
    history_name: &str,
)
    requires
        if standalone {
            call_ensures(TrackedCollection::<T>::new_standalone, (&db, name), opened)
        } else {
            call_ensures(TrackedCollection::<T>::new, (&db, name), opened)
        },
        call_ensures(TrackedCollection::<T>::collection_name, (&opened,), collection_name),
        call_ensures(TrackedCollection::<T>::history_name, (&opened,), history_name),
    ensures
        collection_name@ == name@,
        history_name@ == name@ + "_history"@,
        opened@.wrap(db, name@, name@ + "_history"@),
        opened@.mode is Standalone <==> standalone,
{
}

/// A collection that is opened with a name for its history goes by its own name, keeps its
/// history under the other, and uses transactions unless it is opened for a standalone server.
pub proof fn histories_go_by_the_name_they_are_given<T: Send + Sync>(
    db: mongodb::Database,
    name: &str,
    other: &str,
    opened: TrackedCollection<T>,
    standalone: bool,
    collection_name: &str,
    history_name: &str,
)
    requires
        if standalone {
            call_ensures(
                TrackedCollection::<T>::with_history_name_standalone,
                (&db, name, other),
                opened,
            )
        } else {
            call_ensures(TrackedCollection::<T>::with_history_name, (&db, name, other), opened)
        },
        call_ensures(TrackedCollection::<T>::collection_name, (&opened,), collection_name),
        call_ensures(TrackedCollection::<T>::history_name, (&opened,), history_name),
    ensures
        collection_name@ == name@,
        history_name@ == other@,
        opened@.wrap(db, name@, other@),
        opened@.mode is Standalone <==> standalone,
{
}

/// The turn is the beginning of a run of this batch at `now`, in the mode of the collection.
pub open spec fn is_begun<T: Send + Sync, R>(
    tracked_collection: TrackedCollection<T>,
    models: Seq<BulkWriteModel<T>>,
    now: u128,
    turn: Turn<T, R>,
) -> bool {
    &&& turn.0@.models == models
    &&& turn.0@.mode == tracked_collection@.mode
    &&& turn.0@.since == now
    &&& match tracked_collection@.mode {
        Mode::Transactional => turn.1@ is StartSession,
        Mode::Standalone => is_next(turn.1@, models, 0),
    }
}

/// An update begins a batch of one update with the filter and the update that it is given: of
/// one document, or of all that match.
pub proof fn updates_begin_one_update<T: Send + Sync, R>(
    tracked_collection: TrackedCollection<T>,
    filter: bson::Document,
    update: bson::Document,
    now: u128,
    one: Turn<T, R>,
    many: Turn<T, R>,
)
    requires
        call_ensures(
            TrackedCollection::<T>::update_one::<R>,
            (&tracked_collection, filter, update, now),
            one,
        ),
        call_ensures(
            TrackedCollection::<T>::update_many::<R>,
            (&tracked_collection, filter, update, now),
            many,
        ),
    ensures
        is_begun(
            tracked_collection,
            seq![BulkWriteModel::UpdateOne { filter, update }],
            now,
            one,
        ),
        is_begun(
            tracked_collection,
            seq![BulkWriteModel::UpdateMany { filter, update }],
            now,
            many,
        ),
{
    lemma_next_target(seq![BulkWriteModel::<T>::UpdateOne { filter, update }], 0);
    lemma_next_target(seq![BulkWriteModel::<T>::UpdateMany { filter, update }], 0);
}

/// A replace begins a batch of one replace with the filter and the document that it is given.
pub proof fn replaces_begin_one_replace<T: Send + Sync, R>(
    tracked_collection: TrackedCollection<T>,
    filter: bson::Document,
    replacement: T,
    now: u128,
    turn: Turn<T, R>,
)
    requires
        call_ensures(
            TrackedCollection::<T>::replace_one::<R>,
            (&tracked_collection, filter, replacement, now),
            turn,
        ),
    ensures
        is_begun(
            tracked_collection,
            seq![BulkWriteModel::ReplaceOne { filter, replacement }],
            now,
            turn,
        ),
{
    lemma_next_target(seq![BulkWriteModel::<T>::ReplaceOne { filter, replacement }], 0);
}

/// A delete begins a batch of one delete with the filter that it is given: of one document, or
/// of all that match.
pub proof fn deletes_begin_one_delete<T: Send + Sync, R>(
    tracked_collection: TrackedCollection<T>,
    filter: bson::Document,
    now: u128,
    one: Turn<T, R>,
    many: Turn<T, R>,
)
    requires
        call_ensures(
            TrackedCollection::<T>::delete_one::<R>,
            (&tracked_collection, filter, now),
            one,
        ),
        call_ensures(
            TrackedCollection::<T>::delete_many::<R>,
            (&tracked_collection, filter, now),
            many,
        ),
    ensures
        is_begun(tracked_collection, seq![BulkWriteModel::DeleteOne { filter }], now, one),
        is_begun(tracked_collection, seq![BulkWriteModel::DeleteMany { filter }], now, many),
{
    lemma_next_target(seq![BulkWriteModel::<T>::DeleteOne { filter }], 0);
    lemma_next_target(seq![BulkWriteModel::<T>::DeleteMany { filter }], 0);
}

/// A bulk write begins the whole batch that it is given, in its order.
pub proof fn bulk_writes_begin_the_whole_batch<T: Send + Sync, R>(
    tracked_collection: TrackedCollection<T>,
    models: Vec<BulkWriteModel<T>>,
    now: u128,
    turn: Turn<T, R>,
)
    requires
        models@.len() <= usize::MAX,
        call_ensures(
            TrackedCollection::<T>::bulk_write::<R>,
            (&tracked_collection, models, now),
            turn,
        ),
    ensures
        is_begun(tracked_collection, models@, now, turn),
{
    lemma_next_target(models@, 0);
}

/// A collection gives out the handles that it holds, and its names are those that the driver
/// has for them.
pub proof fn collections_give_out_their_handles<T: Send + Sync>(
    db: mongodb::Database,
    name: &str,
    other: &str,
    opened: TrackedCollection<T>,
    client: &mongodb::Client,
    collection: &mongodb::Collection<T>,
    history: &mongodb::Collection<HistoryEntry<T>>,
)
    requires
        call_ensures(TrackedCollection::<T>::with_history_name, (&db, name, other), opened),
        call_ensures(TrackedCollection::<T>::client, (&opened,), client),
        call_ensures(TrackedCollection::<T>::collection, (&opened,), collection),
        call_ensures(TrackedCollection::<T>::history, (&opened,), history),
    ensures
        is_named(*collection, name@),
        is_named(*history, other@),
        exists|own: &mongodb::Client| #[trigger]
            call_ensures(mongodb::Database::client, (&db,), own) && call_ensures(
                <mongodb::Client as Clone>::clone,
                (own,),
                *client,
            ),
{
}

/// A run in progress shows the batch and the mode that it was begun with.
pub proof fn runs_show_what_they_were_given<T, R>(
    models: Vec<BulkWriteModel<T>>,
    mode: Mode,
    now: u128,
    turn: Turn<T, R>,
    shown: &Vec<BulkWriteModel<T>>,
    shown_mode: Mode,
)
    requires
        models@.len() <= usize::MAX,
        call_ensures(Transaction::<T, R>::begin, (models, mode, now), turn),
        call_ensures(Transaction::<T, R>::models, (&turn.0,), shown),
        call_ensures(Transaction::<T, R>::mode, (&turn.0,), shown_mode),
    ensures
        shown@ == models@,
        shown_mode == mode,
{
}

/// A copy of an entry is of the same date and operation, and holds a copy of its document.
pub proof fn copies_keep_their_entry<T: Clone>(entry: HistoryEntry<T>, copy: HistoryEntry<T>)
    requires
        call_ensures(<HistoryEntry<T> as Clone>::clone, (&entry,), copy),
    ensures
        copy.archived_at == entry.archived_at,
        copy.operation == entry.operation,
        cloned(entry.document, copy.document),
{
}

} // verus!
