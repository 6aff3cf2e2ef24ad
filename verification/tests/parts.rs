//! The pieces that a run is made of.

use bson::{Bson, Document};
use mongodb::error::{ErrorKind, WriteConcernError, WriteFailure};
use mongokeeper::retry::before_deadline;
use mongokeeper::{
    cutoff_at, history_cutoff, is_transient_transaction_error, is_unknown_commit_result,
    BulkWriteModel, Error, Event, HistoryEntry, Mode, Operation, Request, Transaction,
    RETRY_TIMEOUT_NANOS,
};

fn labelled(label: &str) -> mongodb::error::Error {
    let mut fields = Document::new();
    fields.insert("code", 112);
    fields.insert("errorLabels", vec![Bson::String(label.to_string())]);
    let concern: WriteConcernError = bson::deserialize_from_document(fields).unwrap();
    mongodb::error::Error::from(ErrorKind::Write(WriteFailure::WriteConcernError(concern)))
}

fn filter() -> Document {
    let mut filter = Document::new();
    filter.insert("name", "cog");
    filter
}

#[test]
fn labels_tell_errors_apart() {
    let transient = labelled("TransientTransactionError");
    let unknown = labelled("UnknownTransactionCommitResult");
    let plain = mongodb::error::Error::custom("plain");
    assert!(is_transient_transaction_error(&transient));
    assert!(!is_transient_transaction_error(&unknown));
    assert!(!is_transient_transaction_error(&plain));
    assert!(!is_unknown_commit_result(&transient));
    assert!(is_unknown_commit_result(&unknown));
    assert!(!is_unknown_commit_result(&plain));
    assert!(!is_transient_transaction_error(&labelled("RetryableWriteError")));
}

#[test]
fn the_deadline_is_exclusive() {
    assert!(before_deadline(7, 7 + RETRY_TIMEOUT_NANOS - 1));
    assert!(!before_deadline(7, 7 + RETRY_TIMEOUT_NANOS));
    assert!(before_deadline(7, 0));
    assert!(before_deadline(u128::MAX, u128::MAX));
}

#[test]
fn errors_of_the_driver_are_wrapped() {
    let Error::Mongo(err) = Error::from(mongodb::error::Error::custom("inner"));
    assert_eq!(err.get_custom::<&str>(), Some(&"inner"));
}

#[test]
fn models_say_what_they_archive() {
    let insert: BulkWriteModel<u32> = BulkWriteModel::InsertOne(1);
    assert_eq!(insert.operation(), None);
    assert_eq!(insert.filter(), None);
    let models: Vec<(BulkWriteModel<u32>, Operation)> = vec![
        (
            BulkWriteModel::UpdateOne {
                filter: filter(),
                update: Document::new(),
            },
            Operation::Update,
        ),
        (
            BulkWriteModel::UpdateMany {
                filter: filter(),
                update: Document::new(),
            },
            Operation::Update,
        ),
        (
            BulkWriteModel::ReplaceOne {
                filter: filter(),
                replacement: 2,
            },
            Operation::Replace,
        ),
        (
            BulkWriteModel::DeleteOne { filter: filter() },
            Operation::Delete,
        ),
        (
            BulkWriteModel::DeleteMany { filter: filter() },
            Operation::Delete,
        ),
    ];
    for (model, operation) in models {
        assert_eq!(model.operation(), Some(operation));
        assert_eq!(model.filter(), Some(&filter()));
    }
}

#[test]
fn a_cloned_entry_equals_the_entry() {
    let entry = HistoryEntry {
        archived_at: bson::DateTime::from_millis(17),
        operation: Operation::Replace,
        document: "widget".to_string(),
    };
    assert_eq!(entry.clone(), entry);
}

#[test]
fn entries_carry_the_date_they_are_given() {
    let models: Vec<BulkWriteModel<u32>> = vec![
        BulkWriteModel::InsertOne(0),
        BulkWriteModel::DeleteMany { filter: filter() },
    ];
    let (transaction, request) = Transaction::<u32, ()>::begin(models, Mode::Standalone, 0);
    assert!(matches!(request, Request::Find(1)));
    let (transaction, _) = transaction.succeed();
    let (transaction, request) = transaction.record(8, bson::DateTime::from_millis(30));
    assert!(matches!(request, Request::NextDocument));
    let (transaction, _) = transaction.record(9, bson::DateTime::from_millis(31));
    let (transaction, request) = transaction.exhaust();
    match request {
        Request::InsertHistory(entries) => {
            let expected: Vec<HistoryEntry<u32>> = vec![
                HistoryEntry {
                    archived_at: bson::DateTime::from_millis(30),
                    operation: Operation::Delete,
                    document: 8,
                },
                HistoryEntry {
                    archived_at: bson::DateTime::from_millis(31),
                    operation: Operation::Delete,
                    document: 9,
                },
            ];
            assert_eq!(entries, expected);
        }
        _ => panic!("the entries are not inserted"),
    }
    let (transaction, request) = transaction.succeed();
    assert!(matches!(request, Request::Mutate));
    let (transaction, request) = transaction.apply((), 5);
    assert!(matches!(request, Request::Return(Ok(()))));
    assert!(!transaction.accepts(&Event::Done));
    assert_eq!(transaction.models().len(), 2);
}

#[test]
fn failures_go_by_the_labels_that_are_passed() {
    let begin = || {
        let models: Vec<BulkWriteModel<u32>> = vec![];
        let (transaction, _) = Transaction::<u32, u32>::begin(models, Mode::Transactional, 0);
        transaction.succeed().0.succeed()
    };
    let err = || mongodb::error::Error::custom("broken");

    let (transaction, request) = begin();
    assert!(matches!(request, Request::Mutate));
    let (transaction, request) = transaction.fail(err(), true, false, 1);
    assert!(matches!(request, Request::Abort));
    let (_, request) = transaction.fail(err(), false, false, 2);
    assert!(matches!(request, Request::StartSession));

    let (transaction, request) = begin().0.fail(err(), false, true, 1);
    assert!(matches!(request, Request::Abort));
    let (_, request) = transaction.succeed();
    assert!(matches!(request, Request::Return(Err(Error::Mongo(_)))));

    let (transaction, request) = begin().0.apply(3, 100);
    assert!(matches!(request, Request::Commit));
    let (transaction, request) =
        transaction.fail(err(), false, true, 100 + RETRY_TIMEOUT_NANOS - 1);
    assert!(matches!(request, Request::Commit));
    let (_, request) = transaction.succeed();
    assert!(matches!(request, Request::Return(Ok(3))));

    let commit = || begin().0.apply(3, 100).0;
    let (_, request) = commit().fail(err(), true, false, RETRY_TIMEOUT_NANOS - 1);
    assert!(matches!(request, Request::StartSession));
    let (_, request) = commit().fail(err(), true, false, RETRY_TIMEOUT_NANOS);
    assert!(matches!(request, Request::Return(Err(Error::Mongo(_)))));
    let (_, request) = commit().fail(err(), true, true, 101);
    assert!(matches!(request, Request::Commit));
    let (_, request) = commit().fail(err(), true, true, 100 + RETRY_TIMEOUT_NANOS);
    assert!(matches!(request, Request::Return(Err(Error::Mongo(_)))));
    let (_, request) = commit().fail(err(), false, false, 101);
    assert!(matches!(request, Request::Return(Err(Error::Mongo(_)))));
}

#[test]
fn a_transient_commit_gives_the_result_of_the_second_attempt() {
    let second: u128 = 1_000_000_000;
    let models: Vec<BulkWriteModel<u32>> = vec![BulkWriteModel::UpdateOne {
        filter: filter(),
        update: Document::new(),
    }];
    let (mut transaction, mut request) =
        Transaction::<u32, u32>::begin(models, Mode::Transactional, 0);
    let mut results = vec![8, 7];
    let mut documents = vec![None, Some(22), None, Some(21)];
    let mut commits = vec![Event::Done, Event::Failed(labelled("TransientTransactionError"))];
    let mut inserted: Vec<Vec<u32>> = Vec::new();
    loop {
        let event = match request {
            Request::Return(outcome) => {
                assert_eq!(outcome.unwrap(), 8);
                break;
            }
            Request::NextDocument => match documents.pop().unwrap() {
                Some(document) => Event::Document(document),
                None => Event::Exhausted,
            },
            Request::InsertHistory(entries) => {
                inserted.push(entries.into_iter().map(|entry| entry.document).collect());
                Event::Done
            }
            Request::Mutate => Event::Mutated(results.pop().unwrap()),
            Request::Commit => commits.pop().unwrap(),
            Request::Abort => panic!("a commit is not aborted"),
            _ => Event::Done,
        };
        (transaction, request) = transaction.step(event, second);
    }
    assert!(results.is_empty());
    assert_eq!(inserted, [vec![21], vec![22]]);
}

#[test]
fn only_answers_to_the_request_are_accepted() {
    let models: Vec<BulkWriteModel<u32>> = vec![BulkWriteModel::DeleteOne { filter: filter() }];
    let (transaction, _) = Transaction::<u32, u32>::begin(models, Mode::Transactional, 0);
    assert!(transaction.accepts(&Event::Done));
    assert!(transaction.accepts(&Event::Failed(mongodb::error::Error::custom("x"))));
    assert!(!transaction.accepts(&Event::Document(1)));
    assert!(!transaction.accepts(&Event::Exhausted));
    assert!(!transaction.accepts(&Event::Mutated(1)));
    let (reading, _) = transaction.succeed().0.succeed().0.succeed();
    assert!(reading.accepts(&Event::Document(1)));
    assert!(reading.accepts(&Event::Exhausted));
    assert!(!reading.accepts(&Event::Done));
    let (mutating, request) = reading.exhaust();
    assert!(matches!(request, Request::Mutate));
    assert!(mutating.accepts(&Event::Mutated(1)));
    assert!(!mutating.accepts(&Event::Done));
}

#[test]
fn the_cutoff_lies_the_age_before_now() {
    let now = bson::DateTime::from_millis(1_000_000);
    assert_eq!(cutoff_at(now, 0), now);
    assert_eq!(
        cutoff_at(now, 400_000),
        bson::DateTime::from_millis(600_000)
    );
    assert_eq!(
        cutoff_at(now, 1_500_000),
        bson::DateTime::from_millis(-500_000)
    );
    assert_eq!(cutoff_at(now, u128::MAX), bson::DateTime::MIN);
    assert_eq!(
        cutoff_at(bson::DateTime::MAX, u64::MAX.into()),
        bson::DateTime::MIN
    );
    assert_eq!(cutoff_at(bson::DateTime::MIN, 1), bson::DateTime::MIN);
}

#[test]
fn the_cutoff_of_today_is_in_the_past() {
    let month: u128 = 30 * 24 * 3600 * 1000;
    let before = bson::DateTime::now().timestamp_millis();
    let cutoff = history_cutoff(month).timestamp_millis();
    let after = bson::DateTime::now().timestamp_millis();
    assert!(before - 2_592_000_000 <= cutoff && cutoff <= after - 2_592_000_000);
}
