//! The writes that a tracked collection sends, and what each of them archives.

use vstd::prelude::*;

use crate::history::Operation;

verus! {

/// One write of a batch. A single mutation is a batch of one.
#[derive(Debug, PartialEq)]
pub enum BulkWriteModel<T> {
    /// Inserts a document. There is no previous version to archive.
    InsertOne(T),
    /// Applies `update` to one document that matches `filter`.
    UpdateOne { filter: bson::Document, update: bson::Document },
    /// Applies `update` to every document that matches `filter`.
    UpdateMany { filter: bson::Document, update: bson::Document },
    /// Replaces one document that matches `filter`.
    ReplaceOne { filter: bson::Document, replacement: T },
    /// Deletes one document that matches `filter`.
    DeleteOne { filter: bson::Document },
    /// Deletes every document that matches `filter`.
    DeleteMany { filter: bson::Document },
}

impl<T> BulkWriteModel<T> {
    /// The operation under which the documents that this write matches are archived; an
    /// insert archives nothing.
    pub open spec fn archived_as(self) -> Option<Operation> {
        match self {
            BulkWriteModel::InsertOne(_) => None,
            BulkWriteModel::UpdateOne { .. } => Some(Operation::Update),
            BulkWriteModel::UpdateMany { .. } => Some(Operation::Update),
            BulkWriteModel::ReplaceOne { .. } => Some(Operation::Replace),
            BulkWriteModel::DeleteOne { .. } => Some(Operation::Delete),
            BulkWriteModel::DeleteMany { .. } => Some(Operation::Delete),
        }
    }

    /// The filter by which the documents to archive are found.
    pub open spec fn selected_by(self) -> Option<bson::Document> {
        match self {
            BulkWriteModel::InsertOne(_) => None,
            BulkWriteModel::UpdateOne { filter, .. } => Some(filter),
            BulkWriteModel::UpdateMany { filter, .. } => Some(filter),
            BulkWriteModel::ReplaceOne { filter, .. } => Some(filter),
            BulkWriteModel::DeleteOne { filter } => Some(filter),
            BulkWriteModel::DeleteMany { filter } => Some(filter),
        }
    }

    /// The operation under which the documents that this write matches are archived.
    pub fn operation(&self) -> (operation: Option<Operation>)
        ensures
            operation == self.archived_as(),
    {
        match self {
            BulkWriteModel::InsertOne(_) => None,
            BulkWriteModel::UpdateOne { .. } => Some(Operation::Update),
            BulkWriteModel::UpdateMany { .. } => Some(Operation::Update),
            BulkWriteModel::ReplaceOne { .. } => Some(Operation::Replace),
            BulkWriteModel::DeleteOne { .. } => Some(Operation::Delete),
            BulkWriteModel::DeleteMany { .. } => Some(Operation::Delete),
        }
    }

    /// The filter by which the documents to archive are found.
    pub fn filter(&self) -> (filter: Option<&bson::Document>)
        ensures
            filter == (match self.selected_by() {
                Some(document) => Some(&document),
                None => None,
            }),
    {
        match self {
            BulkWriteModel::InsertOne(_) => None,
            BulkWriteModel::UpdateOne { filter, .. } => Some(filter),
            BulkWriteModel::UpdateMany { filter, .. } => Some(filter),
            BulkWriteModel::ReplaceOne { filter, .. } => Some(filter),
            BulkWriteModel::DeleteOne { filter } => Some(filter),
            BulkWriteModel::DeleteMany { filter } => Some(filter),
        }
    }
}

/// The position of the first write at or after `from` that archives anything, or the length
/// of the batch where there is none.
pub open spec fn next_target<T>(models: Seq<BulkWriteModel<T>>, from: int) -> int
    decreases models.len() - from,
{
    if from >= models.len() {
        models.len() as int
    } else if models[from].archived_as() is Some {
        from
    } else {
        next_target(models, from + 1)
    }
}

/// `next_target` is the first archiving write at or after `from`.
pub proof fn lemma_next_target<T>(models: Seq<BulkWriteModel<T>>, from: int)
    requires
        0 <= from <= models.len(),
    ensures
        from <= next_target(models, from) <= models.len(),
        next_target(models, from) < models.len() ==> models[next_target(
            models,
            from,
        )].archived_as() is Some,
        forall|i: int|
            from <= i < next_target(models, from) ==> (#[trigger] models[i]).archived_as() is None,
    decreases models.len() - from,
{
    if from < models.len() && models[from].archived_as() is None {
        lemma_next_target(models, from + 1);
    }
}

/// Finds the first write at or after `from` that archives anything.
pub(crate) fn find_target<T>(models: &Vec<BulkWriteModel<T>>, from: usize) -> (index: usize)
    requires
        from <= models@.len(),
    ensures
        index == next_target(models@, from as int),
{
    let mut index: usize = from;
    while index < models.len()
        invariant
            from <= index <= models@.len(),
            next_target(models@, from as int) == next_target(models@, index as int),
        decreases models@.len() - index,
    {
        if models[index].operation().is_some() {
            return index;
        }
        index += 1;
    }
    index
}

} // verus!
