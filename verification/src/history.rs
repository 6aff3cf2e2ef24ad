//! Types describing archived historical document versions.

use vstd::prelude::*;

verus! {

/// The kind of mutation that caused a document's previous version to be archived.
#[derive(Debug, Clone, Copy, PartialEq, Eq, Structural)]
pub enum Operation {
    /// The document was updated (partial modification via an update document/pipeline).
    Update,
    /// The document was replaced in full.
    Replace,
    /// The document was deleted.
    Delete,
}

/// A single archived version of a document, stored in a collection's history collection.
#[derive(Debug, PartialEq)]
pub struct HistoryEntry<T> {
    /// The time at which this version was archived, i.e. immediately before the mutation
    /// that superseded it was applied.
    pub archived_at: bson::DateTime,
    /// The operation that caused this version to be archived.
    pub operation: Operation,
    /// The full document as it existed immediately before the mutation was applied.
    pub document: T,
}

impl<T: Clone> Clone for HistoryEntry<T> {
    fn clone(&self) -> (copy: Self)
        ensures
            copy.archived_at == self.archived_at,
            copy.operation == self.operation,
            cloned(self.document, copy.document),
    {
        HistoryEntry {
            archived_at: self.archived_at,
            operation: self.operation,
            document: self.document.clone(),
        }
    }
}

} // verus!
