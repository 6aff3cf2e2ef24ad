//! [`TrackedCollection`], a MongoDB collection wrapper that archives previous document
//! versions on update, replace, and delete.

use vstd::prelude::*;
use vstd::string::StringExecFns;

use crate::history::HistoryEntry;
use crate::model::BulkWriteModel;
use crate::transaction::{Mode, Transaction, Turn};
#[allow(unused_imports)]
use crate::driver::is_named;
#[allow(unused_imports)]
use crate::transaction::State;

verus! {

/// A MongoDB collection wrapper that archives the previous version of any document affected
/// by an update, replace, or delete into a companion history collection.
///
/// Every mutating method begins a [`Transaction`] that reads and archives the affected
/// documents, then applies the mutation, then commits. `now` is in each of them a reading of
/// the clock, in nanoseconds, from which retries are counted. A collection that was opened
/// for a standalone server archives and mutates in the same order, but without a transaction:
/// what is said of atomicity below does not hold of it, and nothing is retried.
#[verifier::reject_recursive_types(T)]
pub struct TrackedCollection<T: Send + Sync> {
    client: mongodb::Client,
    collection: mongodb::Collection<T>,
    history: mongodb::Collection<HistoryEntry<T>>,
    mode: Mode,
}

/// What a [`TrackedCollection`] holds.
#[verifier::reject_recursive_types(T)]
pub struct Handles<T: Send + Sync> {
    /// The client that starts sessions.
    pub client: mongodb::Client,
    /// The main collection.
    pub collection: mongodb::Collection<T>,
    /// The collection that archived versions are stored in.
    pub history: mongodb::Collection<HistoryEntry<T>>,
    /// Whether mutations use a transaction.
    pub mode: Mode,
}

impl<T: Send + Sync> View for TrackedCollection<T> {
    type V = Handles<T>;

    closed spec fn view(&self) -> Handles<T> {
        Handles {
            client: self.client,
            collection: self.collection,
            history: self.history,
            mode: self.mode,
        }
    }
}

/// The name of the history collection, where none is given.
pub open spec fn default_history_name(collection_name: Seq<char>) -> Seq<char> {
    collection_name + "_history"@
}

/// The name of the history collection, where none is given.
fn suffixed(collection_name: &str) -> (history_name: String)
    ensures
        history_name@ == default_history_name(collection_name@),
{
    collection_name.to_owned().concat("_history")
}

/// Whether `collection` is a handle that `db` opens under `name`.
pub open spec fn is_opened<T: Send + Sync>(
    db: mongodb::Database,
    name: Seq<char>,
    collection: mongodb::Collection<T>,
) -> bool {
    exists|text: &str|
        text@ == name && #[trigger] call_ensures(
            mongodb::Database::collection::<T>,
            (&db, text),
            collection,
        )
}

/// Whether `client` is a copy of the client of `db`.
pub open spec fn is_client_of(db: mongodb::Database, client: mongodb::Client) -> bool {
    exists|own: &mongodb::Client| #[trigger]
        call_ensures(mongodb::Database::client, (&db,), own) && call_ensures(
            <mongodb::Client as Clone>::clone,
            (own,),
            client,
        )
}

impl<T: Send + Sync> Handles<T> {
    /// The handles are those of `db`, to the collections of these names.
    pub open spec fn wrap(
        self,
        db: mongodb::Database,
        collection_name: Seq<char>,
        history_name: Seq<char>,
    ) -> bool {
        &&& is_client_of(db, self.client)
        &&& is_opened(db, collection_name, self.collection)
        &&& is_named(self.collection, collection_name)
        &&& is_opened(db, history_name, self.history)
        &&& is_named(self.history, history_name)
    }
}

impl<T: Send + Sync> TrackedCollection<T> {
    /// Wraps `collection_name` in `db`, using the default history collection name
    /// (`"<collection_name>_history"`).
    pub fn new(db: &mongodb::Database, collection_name: &str) -> (tracked_collection: Self)
        ensures
            tracked_collection@.wrap(
                *db,
                collection_name@,
                default_history_name(collection_name@),
            ),
            is_named(tracked_collection@.collection, collection_name@),
            is_named(tracked_collection@.history, collection_name@ + "_history"@),
            tracked_collection@.mode is Transactional,
    {
        let history_name = suffixed(collection_name);
        Self::with_history_name(db, collection_name, history_name.as_str())
    }

    /// Wraps `collection_name` in `db`, storing history in `history_name` instead of the
    /// default `"<collection_name>_history"`.
    pub fn with_history_name(
        db: &mongodb::Database,
        collection_name: &str,
        history_name: &str,
    ) -> (tracked_collection: Self)
        ensures
            tracked_collection@.wrap(*db, collection_name@, history_name@),
            is_named(tracked_collection@.collection, collection_name@),
            is_named(tracked_collection@.history, history_name@),
            tracked_collection@.mode is Transactional,
    {
        Self::open(db, collection_name, history_name, Mode::Transactional)
    }

    /// Like [`TrackedCollection::new`], for a server without transactions.
    pub fn new_standalone(db: &mongodb::Database, collection_name: &str) -> (tracked_collection:
        Self)
        ensures
            tracked_collection@.wrap(
                *db,
                collection_name@,
                default_history_name(collection_name@),
            ),
            is_named(tracked_collection@.collection, collection_name@),
            is_named(tracked_collection@.history, collection_name@ + "_history"@),
            tracked_collection@.mode is Standalone,
    {
        let history_name = suffixed(collection_name);
        Self::with_history_name_standalone(db, collection_name, history_name.as_str())
    }

    /// Like [`TrackedCollection::with_history_name`], for a server without transactions.
    pub fn with_history_name_standalone(
        db: &mongodb::Database,
        collection_name: &str,
        history_name: &str,
    ) -> (tracked_collection: Self)
        ensures
            tracked_collection@.wrap(*db, collection_name@, history_name@),
            is_named(tracked_collection@.collection, collection_name@),
            is_named(tracked_collection@.history, history_name@),
            tracked_collection@.mode is Standalone,
    {
        Self::open(db, collection_name, history_name, Mode::Standalone)
    }

    /// Opens the two collections in `db`.
    fn open(
        db: &mongodb::Database,
        collection_name: &str,
        history_name: &str,
        mode: Mode,
    ) -> (tracked_collection: Self)
        ensures
            tracked_collection@.wrap(*db, collection_name@, history_name@),
            is_named(tracked_collection@.collection, collection_name@),
            is_named(tracked_collection@.history, history_name@),
            tracked_collection@.mode == mode,
    {
        TrackedCollection {
            client: db.client().clone(),
            collection: db.collection(collection_name),
            history: db.collection(history_name),
            mode,
        }
    }

    /// The client that sessions are started from.
    pub fn client(&self) -> (client: &mongodb::Client)
        ensures
            *client == self@.client,
    {
        &self.client
    }

    /// The wrapped main collection, for reads and any operation not covered by this type.
    pub fn collection(&self) -> (collection: &mongodb::Collection<T>)
        ensures
            *collection == self@.collection,
    {
        &self.collection
    }

    /// The history collection that archived versions are stored in.
    pub fn history(&self) -> (history: &mongodb::Collection<HistoryEntry<T>>)
        ensures
            *history == self@.history,
    {
        &self.history
    }

    /// The name of the wrapped main collection.
    pub fn collection_name(&self) -> (name: &str)
        ensures
            call_ensures(mongodb::Collection::name, (&self@.collection,), name),
    {
        self.collection.name()
    }

    /// The name of the history collection.
    pub fn history_name(&self) -> (name: &str)
        ensures
            call_ensures(mongodb::Collection::name, (&self@.history,), name),
    {
        self.history.name()
    }

    /// Archives the current version of every document matching `filter`, then applies
    /// `update` to one of them, atomically.
    pub fn update_one<R>(
        &self,
        filter: bson::Document,
        update: bson::Document,
        now: u128,
    ) -> (turn: Turn<T, R>)
        ensures
            (turn.0@, turn.1@) == State::<T, R>::begins(
                seq![BulkWriteModel::UpdateOne { filter, update }],
                self@.mode,
                now,
            ),
    {
        self.begin_one(BulkWriteModel::UpdateOne { filter, update }, now)
    }

    /// Archives the current version of every document matching `filter`, then applies
    /// `update` to all of them, atomically.
    pub fn update_many<R>(
        &self,
        filter: bson::Document,
        update: bson::Document,
        now: u128,
    ) -> (turn: Turn<T, R>)
        ensures
            (turn.0@, turn.1@) == State::<T, R>::begins(
                seq![BulkWriteModel::UpdateMany { filter, update }],
                self@.mode,
                now,
            ),
    {
        self.begin_one(BulkWriteModel::UpdateMany { filter, update }, now)
    }

    /// Archives the current version of every document matching `filter`, then replaces one
    /// of them with `replacement`, atomically.
    pub fn replace_one<R>(&self, filter: bson::Document, replacement: T, now: u128) -> (turn: Turn<
        T,
        R,
    >)
        ensures
            (turn.0@, turn.1@) == State::<T, R>::begins(
                seq![BulkWriteModel::ReplaceOne { filter, replacement }],
                self@.mode,
                now,
            ),
    {
        self.begin_one(BulkWriteModel::ReplaceOne { filter, replacement }, now)
    }

    /// Archives the current version of every document matching `filter`, then deletes one of
    /// them, atomically.
    pub fn delete_one<R>(&self, filter: bson::Document, now: u128) -> (turn: Turn<T, R>)
        ensures
            (turn.0@, turn.1@) == State::<T, R>::begins(
                seq![BulkWriteModel::DeleteOne { filter }],
                self@.mode,
                now,
            ),
    {
        self.begin_one(BulkWriteModel::DeleteOne { filter }, now)
    }

    /// Archives the current version of every document matching `filter`, then deletes all of
    /// them, atomically.
    pub fn delete_many<R>(&self, filter: bson::Document, now: u128) -> (turn: Turn<T, R>)
        ensures
            (turn.0@, turn.1@) == State::<T, R>::begins(
                seq![BulkWriteModel::DeleteMany { filter }],
                self@.mode,
                now,
            ),
    {
        self.begin_one(BulkWriteModel::DeleteMany { filter }, now)
    }

    /// Archives the current version of every document that an update, replace or delete of
    /// the batch matches, then applies the whole batch, atomically.
    pub fn bulk_write<R>(&self, models: Vec<BulkWriteModel<T>>, now: u128) -> (turn: Turn<T, R>)
        ensures
            (turn.0@, turn.1@) == State::<T, R>::begins(models@, self@.mode, now),
    {
        Transaction::begin(models, self.mode, now)
    }

    /// Begins a batch of one write.
    fn begin_one<R>(&self, model: BulkWriteModel<T>, now: u128) -> (turn: Turn<T, R>)
        ensures
            (turn.0@, turn.1@) == State::<T, R>::begins(seq![model], self@.mode, now),
    {
        let mut models: Vec<BulkWriteModel<T>> = Vec::new();
        models.push(model);
        assert(models@ =~= seq![model]);
        Transaction::begin(models, self.mode, now)
    }
}

} // verus!
