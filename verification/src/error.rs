//! Error type for MongoKeeper operations.

use vstd::prelude::*;

verus! {

/// Errors that can occur while using a [`crate::TrackedCollection`].
#[derive(Debug)]
pub enum Error {
    /// An error returned by the underlying MongoDB driver.
    Mongo(mongodb::error::Error),
}

impl From<mongodb::error::Error> for Error {
    fn from(err: mongodb::error::Error) -> (wrapped: Error) {
        Error::Mongo(err)
    }
}

impl vstd::std_specs::convert::FromSpecImpl<mongodb::error::Error> for Error {
    open spec fn obeys_from_spec() -> bool {
        true
    }

    open spec fn from_spec(err: mongodb::error::Error) -> Error {
        Error::Mongo(err)
    }
}

} // verus!
