//! Runs of tracked collections against a server that lives in memory.

use std::collections::VecDeque;

use bson::oid::ObjectId;
use bson::{Bson, Document};
use mongodb::error::{ErrorKind, WriteConcernError, WriteFailure};
use mongodb::options::{ClientOptions, ServerAddress};
use mongodb::{Client, Database};
use mongokeeper::{
    BulkWriteModel, Error, Event, HistoryEntry, Mode, Operation, Request, TrackedCollection,
    Transaction, RETRY_TIMEOUT_NANOS,
};

#[derive(Debug, Clone, PartialEq)]
struct Widget {
    id: ObjectId,
    name: String,
    count: i32,
}

fn widget(id: ObjectId, name: &str, count: i32) -> Widget {
    Widget {
        id,
        name: name.to_string(),
        count,
    }
}

fn by_id(id: ObjectId) -> Document {
    let mut filter = Document::new();
    filter.insert("_id", id);
    filter
}

fn by_name(name: &str) -> Document {
    let mut filter = Document::new();
    filter.insert("name", name);
    filter
}

fn set_count(count: i32) -> Document {
    let mut fields = Document::new();
    fields.insert("count", count);
    let mut update = Document::new();
    update.insert("$set", fields);
    update
}

/// An error of the driver that carries these labels.
fn labelled(labels: &[&str]) -> mongodb::error::Error {
    let labels: Vec<Bson> = labels
        .iter()
        .map(|label| Bson::String(label.to_string()))
        .collect();
    let mut fields = Document::new();
    fields.insert("code", 112);
    fields.insert("errorLabels", labels);
    let concern: WriteConcernError = bson::deserialize_from_document(fields).unwrap();
    mongodb::error::Error::from(ErrorKind::Write(WriteFailure::WriteConcernError(concern)))
}

fn transient() -> mongodb::error::Error {
    labelled(&["TransientTransactionError"])
}

fn unknown() -> mongodb::error::Error {
    labelled(&["UnknownTransactionCommitResult"])
}

fn fatal(what: &'static str) -> mongodb::error::Error {
    mongodb::error::Error::custom(what)
}

fn message(err: &Error) -> &'static str {
    match err {
        Error::Mongo(err) => err.get_custom::<&'static str>().unwrap(),
    }
}

fn labels_of(err: &Error) -> Vec<String> {
    match err {
        Error::Mongo(err) => err.labels().iter().cloned().collect(),
    }
}

/// A handle to a database; nothing is sent to a server.
fn database(name: &str) -> (tokio::runtime::Runtime, Database) {
    let runtime = tokio::runtime::Builder::new_current_thread()
        .enable_all()
        .build()
        .unwrap();
    let db = runtime.block_on(async {
        let host = ServerAddress::Tcp {
            host: "localhost".to_string(),
            port: Some(27017),
        };
        let options = ClientOptions::builder().hosts(vec![host]).build();
        Client::with_options(options)
            .unwrap()
            .database(&format!("mongokeeper_test_{name}"))
    });
    (runtime, db)
}

#[derive(Debug, Clone, Default, PartialEq)]
struct Summary {
    inserted_count: u64,
    modified_count: u64,
    deleted_count: u64,
}

/// The server: what is committed, a version that each commit raises, and the failures that
/// are yet to be injected, by the name of the request.
#[derive(Default)]
struct Server {
    widgets: Vec<Widget>,
    history: Vec<HistoryEntry<Widget>>,
    version: u64,
    failures: VecDeque<(&'static str, mongodb::error::Error)>,
    /// Whether commits that fail take effect nevertheless.
    commits_land: bool,
    clock: u128,
    tick: u128,
    asked: Vec<&'static str>,
}

impl Server {
    fn with(widgets: Vec<Widget>) -> Server {
        Server {
            widgets,
            ..Server::default()
        }
    }

    fn now(&mut self) -> u128 {
        self.clock += self.tick;
        self.clock
    }

    fn failure(&mut self, request: &'static str) -> Option<mongodb::error::Error> {
        self.asked.push(request);
        if self.failures.front()?.0 == request {
            return self.failures.pop_front().map(|failure| failure.1);
        }
        None
    }

    fn times_asked(&self, request: &'static str) -> usize {
        self.asked.iter().filter(|asked| **asked == request).count()
    }
}

fn matches_filter(filter: &Document, widget: &Widget) -> bool {
    filter.iter().all(|(key, value)| match key.as_str() {
        "_id" => value.as_object_id() == Some(widget.id),
        "name" => value.as_str() == Some(widget.name.as_str()),
        _ => false,
    })
}

fn update(
    widgets: &mut [Widget],
    filter: &Document,
    update: &Document,
    limit: usize,
) -> mongodb::error::Result<u64> {
    let fields = match update.get("$set").and_then(Bson::as_document) {
        Some(fields) => fields.clone(),
        None => return Err(fatal("no operations in update")),
    };
    let mut modified = 0;
    for widget in widgets.iter_mut().filter(|w| matches_filter(filter, w)).take(limit) {
        widget.count = fields.get_i32("count").unwrap();
        modified += 1;
    }
    Ok(modified)
}

fn delete(widgets: &mut Vec<Widget>, filter: &Document, limit: usize) -> u64 {
    let mut deleted = 0;
    widgets.retain(|widget| {
        let doomed = (deleted as usize) < limit && matches_filter(filter, widget);
        if doomed {
            deleted += 1;
        }
        !doomed
    });
    deleted
}

fn apply(
    widgets: &mut Vec<Widget>,
    models: &[BulkWriteModel<Widget>],
) -> mongodb::error::Result<Summary> {
    let mut summary = Summary::default();
    for model in models {
        match model {
            BulkWriteModel::InsertOne(widget) => {
                widgets.push(widget.clone());
                summary.inserted_count += 1;
            }
            BulkWriteModel::UpdateOne { filter, update: change } => {
                summary.modified_count += update(widgets, filter, change, 1)?;
            }
            BulkWriteModel::UpdateMany { filter, update: change } => {
                summary.modified_count += update(widgets, filter, change, usize::MAX)?;
            }
            BulkWriteModel::ReplaceOne { filter, replacement } => {
                for widget in widgets.iter_mut().filter(|w| matches_filter(filter, w)).take(1) {
                    if widget.id != replacement.id {
                        return Err(fatal("_id is immutable"));
                    }
                    *widget = replacement.clone();
                    summary.modified_count += 1;
                }
            }
            BulkWriteModel::DeleteOne { filter } => {
                summary.deleted_count += delete(widgets, filter, 1);
            }
            BulkWriteModel::DeleteMany { filter } => {
                summary.deleted_count += delete(widgets, filter, usize::MAX);
            }
        }
    }
    Ok(summary)
}

type Turn = (
    Transaction<Widget, Summary>,
    Request<Vec<HistoryEntry<Widget>>, Summary>,
);

/// One call in progress, with its view of the data.
struct Call {
    turn: Option<Turn>,
    widgets: Vec<Widget>,
    history: Vec<HistoryEntry<Widget>>,
    version: u64,
    cursor: VecDeque<Widget>,
    committed: bool,
    outcome: Option<Result<Summary, Error>>,
}

impl Call {
    fn begin(turn: Turn) -> Call {
        Call {
            turn: Some(turn),
            widgets: Vec::new(),
            history: Vec::new(),
            version: 0,
            cursor: VecDeque::new(),
            committed: false,
            outcome: None,
        }
    }

    /// Performs one request. Without a transaction, it takes effect at once.
    fn advance(&mut self, server: &mut Server) {
        let (transaction, request) = match self.turn.take() {
            Some(turn) => turn,
            None => return,
        };
        let standalone = transaction.mode() == Mode::Standalone;
        let event = match request {
            Request::Return(outcome) => {
                self.outcome = Some(outcome);
                return;
            }
            Request::StartSession => match server.failure("session") {
                Some(err) => Event::Failed(err),
                None => Event::Done,
            },
            Request::StartTransaction => match server.failure("start") {
                Some(err) => Event::Failed(err),
                None => {
                    self.widgets = server.widgets.clone();
                    self.history = Vec::new();
                    self.committed = false;
                    self.version = server.version;
                    Event::Done
                }
            },
            Request::Find(index) => match server.failure("find") {
                Some(err) => Event::Failed(err),
                None => {
                    if standalone {
                        self.widgets = server.widgets.clone();
                    }
                    let filter = transaction.models()[index].filter().unwrap();
                    self.cursor = self
                        .widgets
                        .iter()
                        .filter(|widget| matches_filter(filter, widget))
                        .cloned()
                        .collect();
                    Event::Done
                }
            },
            Request::NextDocument => match server.failure("next") {
                Some(err) => Event::Failed(err),
                None => match self.cursor.pop_front() {
                    Some(widget) => Event::Document(widget),
                    None => Event::Exhausted,
                },
            },
            Request::InsertHistory(entries) => match server.failure("insert") {
                Some(err) => Event::Failed(err),
                None => {
                    assert!(!entries.is_empty());
                    if standalone {
                        server.history.extend(entries);
                    } else {
                        self.history.extend(entries);
                    }
                    Event::Done
                }
            },
            Request::Mutate => match server.failure("mutate") {
                Some(err) => Event::Failed(err),
                None if standalone => match apply(&mut server.widgets, transaction.models()) {
                    Ok(summary) => Event::Mutated(summary),
                    Err(err) => Event::Failed(err),
                },
                None if server.version != self.version => Event::Failed(transient()),
                None => match apply(&mut self.widgets, transaction.models()) {
                    Ok(summary) => Event::Mutated(summary),
                    Err(err) => Event::Failed(err),
                },
            },
            Request::Commit => {
                let failure = server.failure("commit");
                if (failure.is_none() || server.commits_land) && !self.committed {
                    self.committed = true;
                    server.widgets = self.widgets.clone();
                    server.history.append(&mut self.history);
                    server.version += 1;
                }
                match failure {
                    Some(err) => Event::Failed(err),
                    None => Event::Done,
                }
            }
            Request::Abort => {
                self.history.clear();
                match server.failure("abort") {
                    Some(err) => Event::Failed(err),
                    None => Event::Done,
                }
            }
        };
        assert!(transaction.accepts(&event));
        let now = server.now();
        self.turn = Some(transaction.step(event, now));
    }

    fn finish(mut self, server: &mut Server) -> Result<Summary, Error> {
        loop {
            self.advance(server);
            if let Some(outcome) = self.outcome.take() {
                return outcome;
            }
        }
    }
}

fn drive(server: &mut Server, turn: Turn) -> Result<Summary, Error> {
    Call::begin(turn).finish(server)
}

fn entries_of(server: &Server, id: ObjectId) -> Vec<&HistoryEntry<Widget>> {
    server
        .history
        .iter()
        .filter(|entry| entry.document.id == id)
        .collect()
}

#[test]
fn update_one_archives_pre_image() {
    let (_runtime, db) = database("update_one");
    let widgets: TrackedCollection<Widget> = TrackedCollection::new(&db, "widgets");
    let id = ObjectId::new();
    let mut server = Server::with(vec![widget(id, "sprocket", 1)]);

    let before = bson::DateTime::now();
    drive(&mut server, widgets.update_one(by_id(id), set_count(2), 0)).unwrap();
    let after = bson::DateTime::now();

    let history = entries_of(&server, id);
    assert_eq!(history.len(), 1);
    assert_eq!(history[0].operation, Operation::Update);
    assert_eq!(history[0].document.count, 1);
    assert!(before <= history[0].archived_at && history[0].archived_at <= after);
    assert_eq!(server.widgets[0].count, 2);
    assert_eq!(
        server.asked,
        ["session", "start", "find", "next", "next", "insert", "mutate", "commit"]
    );
}

#[test]
fn update_many_archives_one_entry_per_matched_document() {
    let (_runtime, db) = database("update_many");
    let widgets: TrackedCollection<Widget> = TrackedCollection::new(&db, "widgets");
    let ids = [ObjectId::new(), ObjectId::new(), ObjectId::new()];
    let mut server = Server::with(ids.iter().map(|id| widget(*id, "gear", 1)).collect());

    drive(
        &mut server,
        widgets.update_many(by_name("gear"), set_count(5), 0),
    )
    .unwrap();

    assert_eq!(server.history.len(), 3);
    assert!(server.history.iter().all(|e| e.operation == Operation::Update));
    assert!(server.history.iter().all(|e| e.document.count == 1));
    assert!(server.widgets.iter().all(|w| w.count == 5));
}

#[test]
fn replace_one_archives_pre_replacement_document() {
    let (_runtime, db) = database("replace_one");
    let widgets: TrackedCollection<Widget> = TrackedCollection::new(&db, "widgets");
    let id = ObjectId::new();
    let mut server = Server::with(vec![widget(id, "bolt", 1)]);

    drive(
        &mut server,
        widgets.replace_one(by_id(id), widget(id, "bolt-v2", 10), 0),
    )
    .unwrap();

    let history = entries_of(&server, id);
    assert_eq!(history.len(), 1);
    assert_eq!(history[0].operation, Operation::Replace);
    assert_eq!(history[0].document.name, "bolt");
    assert_eq!(server.widgets[0].name, "bolt-v2");
}

#[test]
fn delete_one_archives_pre_delete_document() {
    let (_runtime, db) = database("delete_one");
    let widgets: TrackedCollection<Widget> = TrackedCollection::new(&db, "widgets");
    let id = ObjectId::new();
    let mut server = Server::with(vec![widget(id, "nut", 1)]);

    drive(&mut server, widgets.delete_one(by_id(id), 0)).unwrap();

    let history = entries_of(&server, id);
    assert_eq!(history.len(), 1);
    assert_eq!(history[0].operation, Operation::Delete);
    assert!(server.widgets.is_empty());
}

#[test]
fn delete_many_archives_one_entry_per_matched_document() {
    let (_runtime, db) = database("delete_many");
    let widgets: TrackedCollection<Widget> = TrackedCollection::new(&db, "widgets");
    let mut server = Server::with(
        (0..3)
            .map(|_| widget(ObjectId::new(), "washer", 1))
            .collect(),
    );

    drive(&mut server, widgets.delete_many(by_name("washer"), 0)).unwrap();

    assert_eq!(server.history.len(), 3);
    assert!(server.history.iter().all(|e| e.operation == Operation::Delete));
    assert_eq!(server.widgets.len(), 0);
}

#[test]
fn concurrent_update_one_retries_transient_conflicts_and_archives_exactly_once_each() {
    let (_runtime, db) = database("concurrent_update");
    let widgets: TrackedCollection<Widget> = TrackedCollection::new(&db, "widgets");
    let id = ObjectId::new();
    let mut server = Server::with(vec![widget(id, "cog", 0)]);

    let mut first = Call::begin(widgets.update_one(by_id(id), set_count(1), 0));
    let mut second = Call::begin(widgets.update_one(by_id(id), set_count(2), 0));
    // Both take their snapshot before either commits, so one of them loses the conflict.
    for _ in 0..4 {
        first.advance(&mut server);
        second.advance(&mut server);
    }
    first.finish(&mut server).unwrap();
    second.finish(&mut server).unwrap();

    let history = entries_of(&server, id);
    assert_eq!(history.len(), 2);
    assert!(history.iter().all(|e| e.operation == Operation::Update));
    assert_eq!(history[0].document.count, 0);
    assert_eq!(history[1].document.count, 1);
    assert_eq!(server.times_asked("abort"), 1);
    assert_eq!(server.times_asked("session"), 3);
}

#[test]
fn default_history_collection_name_is_suffixed() {
    let (_runtime, db) = database("naming");
    let widgets: TrackedCollection<Widget> = TrackedCollection::new(&db, "widgets");
    assert_eq!(widgets.history().name(), "widgets_history");
    assert_eq!(widgets.history_name(), "widgets_history");
    assert_eq!(widgets.collection().name(), "widgets");
    assert_eq!(widgets.collection_name(), "widgets");
    assert_eq!(widgets.collection().namespace().db, "mongokeeper_test_naming");
    assert_eq!(widgets.history().namespace().db, "mongokeeper_test_naming");
}

#[test]
fn custom_history_collection_name_is_used() {
    let (_runtime, db) = database("naming_custom");
    let widgets: TrackedCollection<Widget> =
        TrackedCollection::with_history_name(&db, "widgets", "widgets_archive");
    assert_eq!(widgets.history().name(), "widgets_archive");
    assert_eq!(widgets.collection_name(), "widgets");
}

#[test]
fn standalone_collections_are_named_alike() {
    let (_runtime, db) = database("naming_standalone");
    let widgets: TrackedCollection<Widget> = TrackedCollection::new_standalone(&db, "widgets");
    assert_eq!(widgets.history_name(), "widgets_history");
    let widgets: TrackedCollection<Widget> =
        TrackedCollection::with_history_name_standalone(&db, "widgets", "widgets_archive");
    assert_eq!(widgets.history_name(), "widgets_archive");
}

#[test]
fn the_client_is_that_of_the_database() {
    let (_runtime, db) = database("client");
    let widgets: TrackedCollection<Widget> = TrackedCollection::new(&db, "widgets");
    assert_eq!(widgets.client().database("other").name(), "other");
}

#[test]
fn failed_mutation_leaves_no_history_and_no_change() {
    let (_runtime, db) = database("rollback");
    let widgets: TrackedCollection<Widget> = TrackedCollection::new(&db, "widgets");
    let id = ObjectId::new();
    let mut server = Server::with(vec![widget(id, "rivet", 1)]);

    let other_id = ObjectId::new();
    let result = drive(
        &mut server,
        widgets.replace_one(by_id(id), widget(other_id, "rivet-v2", 2), 0),
    );
    assert_eq!(message(&result.unwrap_err()), "_id is immutable");
    assert_eq!(entries_of(&server, id).len(), 0);
    assert_eq!(server.widgets[0].name, "rivet");
    assert_eq!(server.times_asked("insert"), 1);
    assert_eq!(server.times_asked("abort"), 1);
    assert_eq!(server.times_asked("commit"), 0);
}

#[test]
fn bulk_write_mixed_operations_archives_correctly() {
    let (_runtime, db) = database("bulk_write_mixed");
    let widgets: TrackedCollection<Widget> = TrackedCollection::new(&db, "widgets");
    let update_id = ObjectId::new();
    let delete_id = ObjectId::new();
    let insert_id = ObjectId::new();
    let mut server = Server::with(vec![
        widget(update_id, "clamp", 1),
        widget(delete_id, "hinge", 1),
    ]);

    let summary = drive(
        &mut server,
        widgets.bulk_write(
            vec![
                BulkWriteModel::InsertOne(widget(insert_id, "pin", 1)),
                BulkWriteModel::UpdateOne {
                    filter: by_id(update_id),
                    update: set_count(2),
                },
                BulkWriteModel::DeleteOne {
                    filter: by_id(delete_id),
                },
            ],
            0,
        ),
    )
    .unwrap();

    assert_eq!(summary.inserted_count, 1);
    assert_eq!(summary.modified_count, 1);
    assert_eq!(summary.deleted_count, 1);

    let history = &server.history;
    assert_eq!(history.len(), 2);
    assert!(history
        .iter()
        .any(|e| e.document.id == update_id && e.operation == Operation::Update));
    assert!(history
        .iter()
        .any(|e| e.document.id == delete_id && e.operation == Operation::Delete));

    assert!(server.widgets.iter().any(|w| w.id == insert_id));
    assert!(!server.widgets.iter().any(|w| w.id == delete_id));
    let updated = server.widgets.iter().find(|w| w.id == update_id).unwrap();
    assert_eq!(updated.count, 2);
}

#[test]
fn bulk_write_many_variants_archive_one_entry_per_document() {
    let (_runtime, db) = database("bulk_write_many");
    let widgets: TrackedCollection<Widget> = TrackedCollection::new(&db, "widgets");
    let mut stock: Vec<Widget> = Vec::new();
    for _ in 0..3 {
        stock.push(widget(ObjectId::new(), "spring", 1));
    }
    for _ in 0..2 {
        stock.push(widget(ObjectId::new(), "rod", 1));
    }
    let mut server = Server::with(stock);

    drive(
        &mut server,
        widgets.bulk_write(
            vec![
                BulkWriteModel::UpdateMany {
                    filter: by_name("spring"),
                    update: set_count(9),
                },
                BulkWriteModel::DeleteMany {
                    filter: by_name("rod"),
                },
            ],
            0,
        ),
    )
    .unwrap();

    let count = |operation: Operation| {
        server
            .history
            .iter()
            .filter(|e| e.operation == operation)
            .count()
    };
    assert_eq!(server.history.len(), 5);
    assert_eq!(count(Operation::Update), 3);
    assert_eq!(count(Operation::Delete), 2);
}

#[test]
fn bulk_write_failure_leaves_no_history_and_no_change() {
    let (_runtime, db) = database("bulk_write_rollback");
    let widgets: TrackedCollection<Widget> = TrackedCollection::new(&db, "widgets");
    let id = ObjectId::new();
    let mut server = Server::with(vec![widget(id, "washer", 1)]);

    let result = drive(
        &mut server,
        widgets.bulk_write(
            vec![BulkWriteModel::UpdateOne {
                filter: by_id(id),
                update: Document::new(),
            }],
            0,
        ),
    );
    assert!(result.is_err());
    assert_eq!(entries_of(&server, id).len(), 0);
    assert_eq!(server.widgets[0].count, 1);
}

#[test]
fn a_batch_of_inserts_archives_nothing() {
    let (_runtime, db) = database("inserts");
    let widgets: TrackedCollection<Widget> = TrackedCollection::new(&db, "widgets");
    let mut server = Server::with(vec![widget(ObjectId::new(), "pin", 1)]);
    drive(
        &mut server,
        widgets.bulk_write(
            vec![
                BulkWriteModel::InsertOne(widget(ObjectId::new(), "pin", 2)),
                BulkWriteModel::InsertOne(widget(ObjectId::new(), "pin", 3)),
            ],
            0,
        ),
    )
    .unwrap();
    assert_eq!(server.widgets.len(), 3);
    assert!(server.history.is_empty());
    assert_eq!(server.asked, ["session", "start", "mutate", "commit"]);
}

#[test]
fn nothing_matched_means_nothing_inserted() {
    let (_runtime, db) = database("unmatched");
    let widgets: TrackedCollection<Widget> = TrackedCollection::new(&db, "widgets");
    let mut server = Server::with(vec![widget(ObjectId::new(), "pin", 1)]);
    let summary = drive(&mut server, widgets.delete_many(by_name("rod"), 0)).unwrap();
    assert_eq!(summary, Summary::default());
    assert_eq!(
        server.asked,
        ["session", "start", "find", "next", "mutate", "commit"]
    );
}

#[test]
fn update_one_archives_every_match_and_changes_one() {
    let (_runtime, db) = database("update_one_of_two");
    let widgets: TrackedCollection<Widget> = TrackedCollection::new(&db, "widgets");
    let mut server = Server::with(vec![
        widget(ObjectId::new(), "gear", 1),
        widget(ObjectId::new(), "gear", 1),
    ]);
    let summary = drive(
        &mut server,
        widgets.update_one(by_name("gear"), set_count(7), 0),
    )
    .unwrap();
    assert_eq!(summary.modified_count, 1);
    assert_eq!(server.history.len(), 2);
}

#[test]
fn transient_failures_are_retried_at_every_step() {
    for step in ["find", "next", "insert", "mutate"] {
        let (_runtime, db) = database("transient");
        let widgets: TrackedCollection<Widget> = TrackedCollection::new(&db, "widgets");
        let id = ObjectId::new();
        let mut server = Server::with(vec![widget(id, "cog", 1)]);
        server.failures.push_back((step, transient()));
        server.failures.push_back(("abort", fatal("the abort is ignored")));
        drive(&mut server, widgets.update_one(by_id(id), set_count(2), 0)).unwrap();
        assert_eq!(server.history.len(), 1);
        assert_eq!(server.widgets[0].count, 2);
        assert_eq!(server.times_asked("session"), 2);
        assert_eq!(server.times_asked("abort"), 1);
    }
}

#[test]
fn transient_failures_are_returned_when_the_window_is_over() {
    assert_eq!(RETRY_TIMEOUT_NANOS, 120_000_000_000);
    let (_runtime, db) = database("window");
    let widgets: TrackedCollection<Widget> = TrackedCollection::new(&db, "widgets");
    let id = ObjectId::new();
    let start: u128 = 5;
    for (late, attempts) in [(0u128, 2usize), (1, 1)] {
        let mut server = Server::with(vec![widget(id, "cog", 1)]);
        server.failures.push_back(("find", transient()));
        server.clock = start + RETRY_TIMEOUT_NANOS - 1 + late;
        let result = drive(&mut server, widgets.update_one(by_id(id), set_count(2), start));
        assert_eq!(server.times_asked("session"), attempts);
        assert_eq!(server.times_asked("abort"), 1);
        assert_eq!(result.is_ok(), attempts == 2);
        if let Err(err) = result {
            assert_eq!(labels_of(&err), ["TransientTransactionError"]);
            assert!(server.history.is_empty());
        }
    }
}

#[test]
fn retries_stop_after_two_minutes() {
    let (_runtime, db) = database("two_minutes");
    let widgets: TrackedCollection<Widget> = TrackedCollection::new(&db, "widgets");
    let id = ObjectId::new();
    let mut server = Server::with(vec![widget(id, "cog", 1)]);
    server.tick = 1_000_000_000;
    for _ in 0..1000 {
        server.failures.push_back(("find", transient()));
    }
    let result = drive(&mut server, widgets.update_one(by_id(id), set_count(2), 0));
    assert_eq!(labels_of(&result.unwrap_err()), ["TransientTransactionError"]);
    // Four requests an attempt, one second each; the one that fails at 123 s is the last.
    assert_eq!(server.times_asked("session"), 31);
    assert_eq!(server.widgets[0].count, 1);
}

#[test]
fn other_failures_are_aborted_and_returned() {
    for step in ["find", "next", "insert", "mutate"] {
        let (_runtime, db) = database("fatal");
        let widgets: TrackedCollection<Widget> = TrackedCollection::new(&db, "widgets");
        let id = ObjectId::new();
        let mut server = Server::with(vec![widget(id, "cog", 1)]);
        server.failures.push_back((step, fatal("broken")));
        let result = drive(&mut server, widgets.delete_one(by_id(id), 0));
        assert_eq!(message(&result.unwrap_err()), "broken");
        assert_eq!(server.times_asked("abort"), 1);
        assert_eq!(server.times_asked("session"), 1);
        assert_eq!(server.widgets.len(), 1);
        assert!(server.history.is_empty());
    }
}

#[test]
fn a_failed_abort_replaces_the_error() {
    let (_runtime, db) = database("abort");
    let widgets: TrackedCollection<Widget> = TrackedCollection::new(&db, "widgets");
    let id = ObjectId::new();
    let mut server = Server::with(vec![widget(id, "cog", 1)]);
    server.failures.push_back(("mutate", fatal("broken")));
    server.failures.push_back(("abort", fatal("no abort")));
    let result = drive(&mut server, widgets.delete_one(by_id(id), 0));
    assert_eq!(message(&result.unwrap_err()), "no abort");
}

#[test]
fn failures_to_start_are_returned_at_once() {
    for step in ["session", "start"] {
        let (_runtime, db) = database("starting");
        let widgets: TrackedCollection<Widget> = TrackedCollection::new(&db, "widgets");
        let mut server = Server::with(Vec::new());
        server.failures.push_back((step, transient()));
        let result = drive(&mut server, widgets.delete_many(by_name("cog"), 0));
        assert_eq!(labels_of(&result.unwrap_err()), ["TransientTransactionError"]);
        assert_eq!(server.times_asked("abort"), 0);
        assert_eq!(server.times_asked("session"), 1);
    }
}

#[test]
fn commits_of_unknown_outcome_are_asked_again() {
    let (_runtime, db) = database("commit_unknown");
    let widgets: TrackedCollection<Widget> = TrackedCollection::new(&db, "widgets");
    let id = ObjectId::new();
    let mut server = Server::with(vec![widget(id, "cog", 1)]);
    server.failures.push_back(("commit", unknown()));
    server.failures.push_back(("commit", unknown()));
    let summary = drive(&mut server, widgets.update_one(by_id(id), set_count(2), 0)).unwrap();
    assert_eq!(summary.modified_count, 1);
    assert_eq!(server.times_asked("commit"), 3);
    assert_eq!(server.times_asked("mutate"), 1);
    assert_eq!(server.history.len(), 1);
}

#[test]
fn the_window_of_a_commit_counts_from_the_commit() {
    let (_runtime, db) = database("commit_window");
    let widgets: TrackedCollection<Widget> = TrackedCollection::new(&db, "widgets");
    let id = ObjectId::new();
    let mut server = Server::with(vec![widget(id, "cog", 1)]);
    server.clock = 10 * RETRY_TIMEOUT_NANOS;
    server.failures.push_back(("commit", unknown()));
    drive(&mut server, widgets.update_one(by_id(id), set_count(2), 0)).unwrap();
    assert_eq!(server.times_asked("commit"), 2);

    let mut server = Server::with(vec![widget(id, "cog", 1)]);
    server.tick = RETRY_TIMEOUT_NANOS;
    server.failures.push_back(("commit", unknown()));
    let result = drive(&mut server, widgets.update_one(by_id(id), set_count(2), 0));
    assert_eq!(
        labels_of(&result.unwrap_err()),
        ["UnknownTransactionCommitResult"]
    );
    assert_eq!(server.times_asked("commit"), 1);
}

#[test]
fn an_unknown_commit_that_took_effect_is_not_repeated() {
    let (_runtime, db) = database("commit_landed");
    let widgets: TrackedCollection<Widget> = TrackedCollection::new(&db, "widgets");
    let id = ObjectId::new();
    let mut server = Server::with(vec![widget(id, "cog", 1)]);
    server.commits_land = true;
    server.failures.push_back(("commit", unknown()));
    drive(&mut server, widgets.update_one(by_id(id), set_count(2), 0)).unwrap();
    assert_eq!(server.times_asked("commit"), 2);
    assert_eq!(server.times_asked("mutate"), 1);
    assert_eq!(server.history.len(), 1);
    assert_eq!(server.history[0].document.count, 1);
    assert_eq!(server.widgets[0].count, 2);
    assert_eq!(server.version, 1);
}

#[test]
fn a_transient_failure_of_a_commit_starts_again() {
    let (_runtime, db) = database("commit_transient");
    let widgets: TrackedCollection<Widget> = TrackedCollection::new(&db, "widgets");
    let id = ObjectId::new();
    let mut server = Server::with(vec![widget(id, "cog", 1)]);
    server.failures.push_back(("commit", transient()));
    drive(&mut server, widgets.update_one(by_id(id), set_count(2), 0)).unwrap();
    assert_eq!(
        server.asked,
        [
            "session", "start", "find", "next", "next", "insert", "mutate", "commit", "session",
            "start", "find", "next", "next", "insert", "mutate", "commit"
        ]
    );
    assert_eq!(server.history.len(), 1);
    assert_eq!(server.history[0].document.count, 1);
    assert_eq!(server.widgets[0].count, 2);
}

#[test]
fn a_transient_failure_of_a_commit_is_returned_when_the_window_is_over() {
    let (_runtime, db) = database("commit_transient_late");
    let widgets: TrackedCollection<Widget> = TrackedCollection::new(&db, "widgets");
    let id = ObjectId::new();
    for (late, attempts) in [(0u128, 2usize), (1, 1)] {
        let mut server = Server::with(vec![widget(id, "cog", 1)]);
        server.clock = RETRY_TIMEOUT_NANOS - 1 + late;
        server.failures.push_back(("commit", transient()));
        let result = drive(&mut server, widgets.update_one(by_id(id), set_count(2), 0));
        assert_eq!(result.is_ok(), attempts == 2);
        assert_eq!(server.times_asked("session"), attempts);
        assert_eq!(server.times_asked("abort"), 0);
        if let Err(err) = result {
            assert_eq!(labels_of(&err), ["TransientTransactionError"]);
            assert!(server.history.is_empty());
            assert_eq!(server.widgets[0].count, 1);
        }
    }
}

#[test]
fn an_unknown_outcome_is_settled_before_starting_again() {
    let (_runtime, db) = database("commit_both");
    let widgets: TrackedCollection<Widget> = TrackedCollection::new(&db, "widgets");
    let id = ObjectId::new();
    for commits_land in [false, true] {
        let mut server = Server::with(vec![widget(id, "cog", 1)]);
        server.commits_land = commits_land;
        server.failures.push_back((
            "commit",
            labelled(&["TransientTransactionError", "UnknownTransactionCommitResult"]),
        ));
        drive(&mut server, widgets.update_one(by_id(id), set_count(2), 0)).unwrap();
        assert_eq!(server.times_asked("commit"), 2);
        assert_eq!(server.times_asked("session"), 1);
        assert_eq!(server.history.len(), 1);
        assert_eq!(server.widgets[0].count, 2);
    }
}

#[test]
fn other_failures_of_a_commit_are_returned() {
    let (_runtime, db) = database("commit_failure");
    let widgets: TrackedCollection<Widget> = TrackedCollection::new(&db, "widgets");
    let id = ObjectId::new();
    let mut server = Server::with(vec![widget(id, "cog", 1)]);
    server.failures.push_back(("commit", fatal("no commit")));
    let result = drive(&mut server, widgets.update_one(by_id(id), set_count(2), 0));
    assert_eq!(message(&result.unwrap_err()), "no commit");
    assert_eq!(server.times_asked("commit"), 1);
    assert_eq!(server.times_asked("session"), 1);
    assert_eq!(server.times_asked("abort"), 0);
    assert!(server.history.is_empty());
    assert_eq!(server.widgets[0].count, 1);
}

#[test]
fn history_and_document_are_the_full_sequence_of_versions() {
    let (_runtime, db) = database("versions");
    let widgets: TrackedCollection<Widget> = TrackedCollection::new(&db, "widgets");
    let id = ObjectId::new();
    let mut server = Server::with(vec![
        widget(id, "cog", 0),
        widget(ObjectId::new(), "rod", 9),
    ]);
    for count in 1..6 {
        server.failures.push_back(("commit", transient()));
        drive(&mut server, widgets.update_one(by_id(id), set_count(count), 0)).unwrap();
    }
    let counts: Vec<i32> = server.history.iter().map(|e| e.document.count).collect();
    assert_eq!(counts, [0, 1, 2, 3, 4]);
    assert!(server.history.iter().all(|e| e.document.id == id));
    assert!(server.history.iter().all(|e| e.operation == Operation::Update));
    assert_eq!(server.widgets[0].count, 5);
    assert_eq!(server.widgets[1].count, 9);
}

/// A batch that changes the widget `id` once, beside writes of other widgets.
fn batch(id: ObjectId, round: i32) -> Vec<BulkWriteModel<Widget>> {
    vec![
        BulkWriteModel::InsertOne(widget(ObjectId::new(), "pin", round)),
        BulkWriteModel::UpdateMany {
            filter: by_name("rod"),
            update: set_count(10 * round),
        },
        BulkWriteModel::UpdateOne {
            filter: by_id(id),
            update: set_count(round),
        },
        BulkWriteModel::DeleteMany {
            filter: by_name("nut"),
        },
    ]
}

#[test]
fn batches_archive_the_full_sequence_of_versions() {
    let (_runtime, db) = database("batch_versions");
    let widgets: TrackedCollection<Widget> = TrackedCollection::new(&db, "widgets");
    let id = ObjectId::new();
    let spare = ObjectId::new();
    let mut server = Server::with(vec![
        widget(id, "cog", 0),
        widget(spare, "gear", 7),
        widget(ObjectId::new(), "rod", 0),
        widget(ObjectId::new(), "rod", 0),
        widget(ObjectId::new(), "nut", 0),
    ]);
    for round in 1..4 {
        server.failures.push_back(("commit", transient()));
        drive(&mut server, widgets.bulk_write(batch(id, round), 0)).unwrap();
    }
    let history = entries_of(&server, id);
    let counts: Vec<i32> = history.iter().map(|e| e.document.count).collect();
    assert_eq!(counts, [0, 1, 2]);
    assert!(history.iter().all(|e| e.operation == Operation::Update));
    assert_eq!(server.widgets[0], widget(id, "cog", 3));
    assert!(entries_of(&server, spare).is_empty());
    assert_eq!(server.widgets[1], widget(spare, "gear", 7));
    // Three versions of the widget, two of each rod for every round, and the deleted nut.
    assert_eq!(server.history.len(), 3 + 2 * 3 + 1);
}

#[test]
fn overlapping_batches_archive_the_full_sequence_of_versions() {
    let (_runtime, db) = database("batch_overlap");
    let widgets: TrackedCollection<Widget> = TrackedCollection::new(&db, "widgets");
    let id = ObjectId::new();
    let mut server = Server::with(vec![widget(id, "cog", 0)]);
    let mut calls: Vec<Call> = (1..5)
        .map(|round| Call::begin(widgets.bulk_write(batch(id, round), 0)))
        .collect();
    for _ in 0..5 {
        for call in calls.iter_mut() {
            call.advance(&mut server);
        }
    }
    for call in calls {
        call.finish(&mut server).unwrap();
    }
    let counts: Vec<i32> = server.history.iter().map(|e| e.document.count).collect();
    assert_eq!(counts, [0, 1, 2, 3]);
    assert_eq!(server.widgets[0].count, 4);
    assert_eq!(server.times_asked("abort"), 3);
}

#[test]
fn history_is_append_only() {
    let (_runtime, db) = database("append_only");
    let widgets: TrackedCollection<Widget> = TrackedCollection::new(&db, "widgets");
    let id = ObjectId::new();
    let mut server = Server::with(vec![widget(id, "cog", 1)]);
    drive(&mut server, widgets.update_one(by_id(id), set_count(2), 0)).unwrap();
    let earlier = server.history.clone();
    server.failures.push_back(("mutate", fatal("broken")));
    assert!(drive(&mut server, widgets.update_many(by_id(id), set_count(3), 0)).is_err());
    assert_eq!(server.history, earlier);
    drive(&mut server, widgets.delete_many(by_name("cog"), 0)).unwrap();
    assert_eq!(server.history.len(), 2);
    assert_eq!(server.history[..1], earlier[..]);
}

#[test]
fn update_one_and_update_many_agree_on_one_match() {
    let (_runtime, db) = database("one_is_many");
    let widgets: TrackedCollection<Widget> = TrackedCollection::new(&db, "widgets");
    let id = ObjectId::new();
    let stock = vec![widget(id, "cog", 1), widget(ObjectId::new(), "rod", 1)];
    for name in ["cog", "pin"] {
        let mut one = Server::with(stock.clone());
        let mut many = Server::with(stock.clone());
        let first = drive(&mut one, widgets.update_one(by_name(name), set_count(2), 0));
        let second = drive(&mut many, widgets.update_many(by_name(name), set_count(2), 0));
        assert_eq!(first.unwrap(), second.unwrap());
        assert_eq!(one.widgets, many.widgets);
        assert_eq!(one.history.len(), many.history.len());
        for (left, right) in one.history.iter().zip(many.history.iter()) {
            assert_eq!(left.document, right.document);
            assert_eq!(left.operation, right.operation);
        }
    }
}

#[test]
fn the_archived_version_undoes_a_replacement() {
    let (_runtime, db) = database("undo");
    let widgets: TrackedCollection<Widget> = TrackedCollection::new(&db, "widgets");
    let id = ObjectId::new();
    let mut server = Server::with(vec![widget(id, "bolt", 1)]);
    let before = server.widgets.clone();
    drive(
        &mut server,
        widgets.replace_one(by_id(id), widget(id, "bolt-v2", 10), 0),
    )
    .unwrap();
    let archived = server.history[0].document.clone();
    drive(&mut server, widgets.replace_one(by_id(id), archived, 0)).unwrap();
    assert_eq!(server.widgets, before);
    assert_eq!(server.history.len(), 2);
    assert_eq!(server.history[0].document, widget(id, "bolt", 1));
    assert_eq!(server.history[1].document, widget(id, "bolt-v2", 10));
    assert!(server.history.iter().all(|e| e.operation == Operation::Replace));
}

#[test]
fn a_repeated_delete_changes_nothing() {
    let (_runtime, db) = database("repeated_delete");
    let widgets: TrackedCollection<Widget> = TrackedCollection::new(&db, "widgets");
    let id = ObjectId::new();
    let mut server = Server::with(vec![widget(id, "nut", 1), widget(ObjectId::new(), "nut", 2)]);
    let first = drive(&mut server, widgets.delete_one(by_id(id), 0)).unwrap();
    assert_eq!(first.deleted_count, 1);
    let left = (server.widgets.clone(), server.history.clone());
    let second = drive(&mut server, widgets.delete_one(by_id(id), 0)).unwrap();
    assert_eq!(second.deleted_count, 0);
    assert_eq!((server.widgets.clone(), server.history.clone()), left);
    assert_eq!(server.history.len(), 1);
}

#[test]
fn documents_inserted_directly_are_tracked() {
    let (_runtime, db) = database("inserted");
    let widgets: TrackedCollection<Widget> = TrackedCollection::new(&db, "widgets");
    assert_eq!(widgets.collection().name(), "widgets");
    let id = ObjectId::new();
    let mut server = Server::with(Vec::new());
    server.widgets.push(widget(id, "cog", 1));
    assert!(server.history.is_empty());
    drive(&mut server, widgets.delete_one(by_id(id), 0)).unwrap();
    assert_eq!(entries_of(&server, id).len(), 1);
}

#[test]
fn standalone_archives_then_mutates_without_a_transaction() {
    let (_runtime, db) = database("standalone");
    let widgets: TrackedCollection<Widget> = TrackedCollection::new_standalone(&db, "widgets");
    let id = ObjectId::new();
    let mut server = Server::with(vec![widget(id, "cog", 1)]);
    drive(&mut server, widgets.update_one(by_id(id), set_count(2), 0)).unwrap();
    assert_eq!(server.asked, ["find", "next", "next", "insert", "mutate"]);
    assert_eq!(server.history.len(), 1);
    assert_eq!(server.history[0].document.count, 1);
    assert_eq!(server.widgets[0].count, 2);
}

#[test]
fn standalone_failures_leave_at_most_an_orphaned_entry() {
    let (_runtime, db) = database("standalone_failure");
    let widgets: TrackedCollection<Widget> = TrackedCollection::new_standalone(&db, "widgets");
    let id = ObjectId::new();
    let mut server = Server::with(vec![widget(id, "cog", 1)]);
    server.failures.push_back(("mutate", transient()));
    let result = drive(&mut server, widgets.update_one(by_id(id), set_count(2), 0));
    assert_eq!(labels_of(&result.unwrap_err()), ["TransientTransactionError"]);
    assert_eq!(server.history.len(), 1);
    assert_eq!(server.history[0].document, server.widgets[0]);

    let mut server = Server::with(vec![widget(id, "cog", 1)]);
    server.failures.push_back(("insert", fatal("broken")));
    let result = drive(&mut server, widgets.update_one(by_id(id), set_count(2), 0));
    assert_eq!(message(&result.unwrap_err()), "broken");
    assert_eq!(server.times_asked("mutate"), 0);
    assert_eq!(server.widgets[0].count, 1);
}
