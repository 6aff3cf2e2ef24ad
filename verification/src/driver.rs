//! What the crate takes from the MongoDB driver and from `bson` without proof.

use vstd::prelude::*;

use mongodb::error::Error as DriverError;

verus! {

/// An error of the driver, carried through to the caller unopened.
#[verifier::external_type_specification]
#[verifier::external_body]
pub struct ExDriverError(DriverError);

/// A filter or an update, carried through to the driver unopened.
#[verifier::external_type_specification]
#[verifier::external_body]
pub struct ExDocument(bson::Document);

/// The time stamp of a history entry.
#[verifier::external_type_specification]
#[verifier::external_body]
pub struct ExDateTime(bson::DateTime);

/// The handle from which sessions are started.
#[verifier::external_type_specification]
#[verifier::external_body]
pub struct ExClient(mongodb::Client);

/// The handle from which collection handles are opened.
#[verifier::external_type_specification]
#[verifier::external_body]
pub struct ExDatabase(mongodb::Database);

/// A handle to a collection of documents of type `T`.
#[verifier::external_type_specification]
#[verifier::external_body]
#[verifier::reject_recursive_types(T)]
pub struct ExCollection<T: Send + Sync>(mongodb::Collection<T>);

/// The labels that an error of the driver carries, its own and those of its source errors.
pub uninterp spec fn error_labels(err: DriverError) -> Set<Seq<char>>;

/// `mongodb::error::Error::contains_label`: whether the label is among those that the error
/// or one of its source errors carries.
#[verifier::external_body]
pub(crate) fn contains_label(err: &DriverError, label: &str) -> (found: bool)
    ensures
        found == error_labels(*err).contains(label@),
{
    err.contains_label(label)
}

/// `mongodb::error::TRANSIENT_TRANSACTION_ERROR`: the driver's label for an error after
/// which the whole transaction may be run again.
#[verifier::external_body]
pub(crate) fn transient_transaction_label() -> (label: &'static str)
    ensures
        label@ == "TransientTransactionError"@,
{
    mongodb::error::TRANSIENT_TRANSACTION_ERROR
}

/// `mongodb::error::UNKNOWN_TRANSACTION_COMMIT_RESULT`: the driver's label for a commit of
/// which it is not known whether it took effect.
#[verifier::external_body]
pub(crate) fn unknown_commit_label() -> (label: &'static str)
    ensures
        label@ == "UnknownTransactionCommitResult"@,
{
    mongodb::error::UNKNOWN_TRANSACTION_COMMIT_RESULT
}

/// The milliseconds from the Unix epoch to a date.
pub uninterp spec fn date_millis(date: bson::DateTime) -> i64;

/// `bson::DateTime::now`: a reading of the clock, of which nothing is claimed.
pub assume_specification[ bson::DateTime::now ]() -> (date: bson::DateTime)
;

/// `bson::DateTime::timestamp_millis`: the milliseconds from the Unix epoch to the date.
pub assume_specification[ bson::DateTime::timestamp_millis ](date: bson::DateTime) -> (millis: i64)
    ensures
        millis == date_millis(date),
;

/// `bson::DateTime::from_millis`: the date that lies so many milliseconds from the Unix
/// epoch.
pub assume_specification[ bson::DateTime::from_millis ](millis: i64) -> (date: bson::DateTime)
    ensures
        date_millis(date) == millis,
;

/// `mongodb::Database::client`: the client that the database handle descends from. Which
/// client that is, is known only as what this call returns.
pub assume_specification[ mongodb::Database::client ](db: &mongodb::Database) -> (client:
    &mongodb::Client)
;

/// `<mongodb::Client as Clone>::clone`: another handle to the same client. What it is, is
/// known only as what this call returns.
pub assume_specification[ <mongodb::Client as Clone>::clone ](client: &mongodb::Client) -> (copy:
    mongodb::Client)
;

/// `mongodb::Collection::name`: the name that the handle was opened with. Nothing is claimed
/// here of a handle whose opening is not known; `mongodb::Database::collection` below says
/// what this call returns on the handles that it opens.
pub assume_specification<T: Send + Sync>[ mongodb::Collection::<T>::name ](
    collection: &mongodb::Collection<T>,
) -> (name: &str)
;

/// Whether the driver calls the collection behind the handle by `name`.
pub open spec fn is_named<T: Send + Sync>(
    collection: mongodb::Collection<T>,
    name: Seq<char>,
) -> bool {
    forall|answer: &str| #[trigger]
        call_ensures(mongodb::Collection::<T>::name, (&collection,), answer) ==> answer@ == name
}

/// `mongodb::Database::collection`: a handle to the collection of the database that has the
/// given name. Nothing is sent to the server.
pub assume_specification<T: Send + Sync>[ mongodb::Database::collection::<T> ](
    db: &mongodb::Database,
    name: &str,
) -> (collection: mongodb::Collection<T>)
    ensures
        is_named(collection, name@),
;

} // verus!
