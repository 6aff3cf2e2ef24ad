//! What holds of several calls on one collection: the history as an audit trail.
//!
//! A [`Deployment`] says what filters, updates and results mean. A [`Call`] is a whole run;
//! [`Call::lands`] says what it makes of a [`Store`], by what a MongoDB deployment promises of
//! a transaction: its cursors and its writes see the collection as one commit left it; a cursor
//! gives out each document that its filter matches, once; the writes of a batch are applied in
//! order, each to what the one before it made; what becomes durable is appended to the history
//! and, of the main collection, replaces the documents that were changed; and a commit takes
//! effect only where none of these documents was changed by others in between. That calls which
//! ran at the same time leave what they would leave one after the other is not among these
//! promises.
//!
//! [`Call::takes_effect`] is the same of a call that saw what is there when it takes effect:
//! of one that no other overlapped, with or without a transaction.

use vstd::prelude::*;

use crate::collection::Handles;
use crate::history::HistoryEntry;
use crate::laws::{Reply, Run};
use crate::model::BulkWriteModel;
use crate::transaction::{Mode, Request};
#[allow(unused_imports)]
use crate::driver::is_named;
#[allow(unused_imports)]
use crate::laws::{
    all_or_nothing, applied, archived, is_proper, run, success_archives_each_document_once,
};

verus! {

/// What the result of a mutation counts.
pub struct Tally {
    pub inserted: nat,
    pub matched: nat,
    pub modified: nat,
    pub deleted: nat,
}

impl Tally {
    /// Nothing was counted.
    pub open spec fn none() -> Tally {
        Tally { inserted: 0, matched: 0, modified: 0, deleted: 0 }
    }

    /// The counts of two results together.
    pub open spec fn plus(self, other: Tally) -> Tally {
        Tally {
            inserted: self.inserted + other.inserted,
            matched: self.matched + other.matched,
            modified: self.modified + other.modified,
            deleted: self.deleted + other.deleted,
        }
    }
}

/// The counts of all results together.
pub open spec fn total(tallies: Seq<Tally>) -> Tally
    decreases tallies.len(),
{
    if tallies.len() == 0 {
        Tally::none()
    } else {
        total(tallies.drop_last()).plus(tallies.last())
    }
}

/// What a server makes of filters, updates and results.
#[verifier::reject_recursive_types(T)]
#[verifier::reject_recursive_types(R)]
pub struct Deployment<T, R> {
    /// Whether a filter matches a document.
    pub matches: spec_fn(bson::Document, T) -> bool,
    /// What an update makes of a document.
    pub update: spec_fn(bson::Document, T) -> T,
    /// What a result counts.
    pub tally: spec_fn(R) -> Tally,
}

/// The main collection, by the identity of each document, and the history, in the order of
/// insertion.
pub struct Store<T> {
    pub main: Map<int, T>,
    pub history: Seq<HistoryEntry<T>>,
}

/// A call of a mutating method, with all the replies that it got.
pub struct Call<T, R> {
    pub models: Seq<BulkWriteModel<T>>,
    pub mode: Mode,
    pub start: u128,
    pub replies: Seq<Reply<T, R>>,
    /// The identities of the documents that its last attempt was given.
    pub ids: Seq<int>,
    /// The main collection as the writes of its last attempt saw it: before the first, and
    /// after each.
    pub stages: Seq<Map<int, T>>,
    /// What each of these writes counted.
    pub tallies: Seq<Tally>,
}

impl<T, R> Deployment<T, R> {
    /// Whether the write matches the document.
    pub open spec fn selects(self, model: BulkWriteModel<T>, document: T) -> bool {
        match model.selected_by() {
            Some(filter) => (self.matches)(filter, document),
            None => false,
        }
    }

    /// The documents that the write matches.
    pub open spec fn selected(self, model: BulkWriteModel<T>, main: Map<int, T>) -> Set<int> {
        Set::new(|id: int| main.contains_key(id) && self.selects(model, main[id]))
    }

    /// Whether the write matches the document `id`, and no other.
    pub open spec fn selects_only(
        self,
        model: BulkWriteModel<T>,
        main: Map<int, T>,
        id: int,
    ) -> bool {
        &&& main.contains_key(id)
        &&& forall|other: int| #[trigger]
            main.contains_key(other) ==> (self.selects(model, main[other]) <==> other == id)
    }

    /// Whether the write matches no document.
    pub open spec fn selects_nothing(self, model: BulkWriteModel<T>, main: Map<int, T>) -> bool {
        forall|other: int| #[trigger]
            main.contains_key(other) ==> !self.selects(model, main[other])
    }

    /// One document that the write matches becomes `change` of it.
    pub open spec fn changes_one(
        self,
        model: BulkWriteModel<T>,
        change: spec_fn(T) -> T,
        main: Map<int, T>,
        after: Map<int, T>,
        tally: Tally,
    ) -> bool {
        if self.selects_nothing(model, main) {
            after == main && tally == Tally::none()
        } else {
            exists|id: int|
                #![trigger main[id]]
                {
                    &&& main.contains_key(id)
                    &&& self.selects(model, main[id])
                    &&& after == main.insert(id, change(main[id]))
                    &&& tally == Tally {
                        matched: 1,
                        modified: if change(main[id]) != main[id] {
                            1
                        } else {
                            0
                        },
                        ..Tally::none()
                    }
                }
        }
    }

    /// What a write makes of the main collection, and what its result counts.
    pub open spec fn applies(
        self,
        model: BulkWriteModel<T>,
        main: Map<int, T>,
        after: Map<int, T>,
        tally: Tally,
    ) -> bool {
        match model {
            BulkWriteModel::InsertOne(document) => {
                &&& exists|id: int|
                    !main.contains_key(id) && after == #[trigger] main.insert(id, document)
                &&& tally == (Tally { inserted: 1, ..Tally::none() })
            },
            BulkWriteModel::UpdateOne { update, .. } => self.changes_one(
                model,
                |document: T| (self.update)(update, document),
                main,
                after,
                tally,
            ),
            BulkWriteModel::ReplaceOne { replacement, .. } => self.changes_one(
                model,
                |document: T| replacement,
                main,
                after,
                tally,
            ),
            BulkWriteModel::UpdateMany { update, .. } => {
                &&& after.dom() == main.dom()
                &&& forall|id: int| #[trigger]
                    main.contains_key(id) ==> after[id] == if self.selects(model, main[id]) {
                        (self.update)(update, main[id])
                    } else {
                        main[id]
                    }
                &&& tally == Tally {
                    matched: self.selected(model, main).len(),
                    modified: self.selected(model, main).filter(
                        |id: int| after[id] != main[id],
                    ).len(),
                    ..Tally::none()
                }
            },
            BulkWriteModel::DeleteOne { .. } => if self.selects_nothing(model, main) {
                after == main && tally == Tally::none()
            } else {
                exists|id: int|
                    #![trigger main[id]]
                    {
                        &&& main.contains_key(id)
                        &&& self.selects(model, main[id])
                        &&& after == main.remove(id)
                        &&& tally == (Tally { deleted: 1, ..Tally::none() })
                    }
            },
            BulkWriteModel::DeleteMany { .. } => {
                &&& after == main.remove_keys(self.selected(model, main))
                &&& tally == Tally {
                    deleted: self.selected(model, main).len(),
                    ..Tally::none()
                }
            },
        }
    }
}

/// Whether the document `id` was changed, added or removed between `seen` and `made`.
pub open spec fn is_written<T>(seen: Map<int, T>, made: Map<int, T>, id: int) -> bool {
    ||| seen.contains_key(id) != made.contains_key(id)
    ||| seen.contains_key(id) && seen[id] != made[id]
}

/// `main`, with the documents that differ between `seen` and `made` as they are in `made`.
pub open spec fn merged<T>(main: Map<int, T>, seen: Map<int, T>, made: Map<int, T>) -> Map<
    int,
    T,
> {
    Map::new(
        |id: int|
            if is_written(seen, made, id) {
                made.contains_key(id)
            } else {
                main.contains_key(id)
            },
        |id: int|
            if is_written(seen, made, id) {
                made[id]
            } else {
                main[id]
            },
    )
}

impl<T, R> Call<T, R> {
    /// The run, after all replies.
    pub open spec fn end(self) -> Run<T, R> {
        run(self.models, self.mode, self.start, self.replies)
    }

    /// The entries that the call has added to the history.
    pub open spec fn entries(self) -> Seq<HistoryEntry<T>> {
        archived(self.end().server.durable)
    }

    /// The call returned `value`.
    pub open spec fn succeeds_with(self, value: R) -> bool {
        self.end().request == Request::<Seq<HistoryEntry<T>>, R>::Return(Ok(value))
    }

    /// The call consists of one write.
    pub open spec fn writes(self, model: BulkWriteModel<T>) -> bool {
        self.models == seq![model]
    }

    /// The cursors gave out documents of `main` that their writes match, each once, and those
    /// that were read to their end gave out all of them.
    pub open spec fn reads(self, deployment: Deployment<T, R>, main: Map<int, T>) -> bool {
        let delivered = self.end().server.delivered;
        &&& self.ids.len() == delivered.len()
        &&& forall|k: int|
            #![trigger self.ids[k]]
            0 <= k < self.ids.len() ==> {
                &&& main.contains_key(self.ids[k])
                &&& main[self.ids[k]] == delivered[k].1
                &&& deployment.selects(self.models[delivered[k].0], main[self.ids[k]])
            }
        &&& forall|j: int, k: int|
            #![trigger self.ids[j], self.ids[k]]
            0 <= j < k < self.ids.len() && delivered[j].0 == delivered[k].0 ==> self.ids[j]
                != self.ids[k]
        &&& forall|i: int, id: int|
            #![trigger self.models[i], main[id]]
            self.end().server.exhausted.contains(i) && 0 <= i < self.models.len()
                && main.contains_key(id) && deployment.selects(self.models[i], main[id])
                ==> exists|k: int|
                0 <= k < self.ids.len() && #[trigger] self.ids[k] == id && delivered[k].0 == i
    }

    /// The writes of the batch were applied in order, the first to `seen` and each of the
    /// others to what the one before it made.
    pub open spec fn is_applied(self, deployment: Deployment<T, R>, seen: Map<int, T>) -> bool {
        &&& self.stages.len() == self.models.len() + 1
        &&& self.tallies.len() == self.models.len()
        &&& self.stages[0] == seen
        &&& forall|j: int|
            #![trigger self.models[j]]
            0 <= j < self.models.len() ==> deployment.applies(
                self.models[j],
                self.stages[j],
                self.stages[j + 1],
                self.tallies[j],
            )
    }

    /// What the call makes of the store, whether it succeeded or not, where its last attempt
    /// saw the main collection as `seen`.
    pub open spec fn lands(
        self,
        deployment: Deployment<T, R>,
        seen: Map<int, T>,
        before: Store<T>,
        after: Store<T>,
    ) -> bool {
        let at = self.end();
        &&& self.models.len() <= usize::MAX
        &&& is_proper(self.models, self.mode, self.start, self.replies)
        &&& self.reads(deployment, seen)
        &&& after.history == before.history + self.entries()
        &&& applied(at.server.durable) == 0 ==> after.main == before.main
        &&& applied(at.server.durable) > 0 && self.is_whole() ==> {
            &&& self.is_applied(deployment, seen)
            &&& at.server.result matches Some(value) ==> (deployment.tally)(value) == total(
                self.tallies,
            )
            &&& after.main == merged(before.main, seen, self.stages.last())
            &&& forall|id: int| #[trigger]
                is_written(seen, self.stages.last(), id) ==> !is_written(seen, before.main, id)
        }
    }

    /// The call did not leave a mere part of its batch: it ran in a transaction, or it
    /// succeeded.
    pub open spec fn is_whole(self) -> bool {
        self.mode is Transactional || self.end().request matches Request::Return(Ok(_))
    }

    /// What the call makes of the store, where no other call overlapped it.
    pub open spec fn takes_effect(
        self,
        deployment: Deployment<T, R>,
        before: Store<T>,
        after: Store<T>,
    ) -> bool {
        self.lands(deployment, before.main, before, after)
    }

    /// The identity of the document that each entry of the call was made of.
    pub open spec fn owners(self) -> Seq<int> {
        self.ids.take(self.entries().len() as int)
    }

    /// The write at `position` changes the document `id` of `seen`, and no other write of the
    /// batch matches that document: neither as it was, nor as it has become. A write of one
    /// document matches no other where it is applied.
    pub open spec fn changes(
        self,
        deployment: Deployment<T, R>,
        seen: Map<int, T>,
        id: int,
        position: int,
    ) -> bool {
        let model = self.models[position];
        &&& 0 <= position < self.models.len()
        &&& is_change(model)
        &&& seen.contains_key(id)
        &&& deployment.selects(model, seen[id])
        &&& forall|j: int|
            #![trigger self.models[j]]
            0 <= j < self.models.len() && j != position ==> !deployment.selects(
                self.models[j],
                seen[id],
            )
        &&& forall|j: int|
            #![trigger self.models[j]]
            position < j < self.models.len() ==> !deployment.selects(
                self.models[j],
                version(deployment, model, seen[id]),
            )
        &&& !(model is UpdateMany) ==> deployment.selects_only(model, self.stages[position], id)
    }

    /// No write of the batch matches the document `id` of `seen`.
    pub open spec fn passes_by(
        self,
        deployment: Deployment<T, R>,
        seen: Map<int, T>,
        id: int,
    ) -> bool {
        &&& seen.contains_key(id)
        &&& forall|j: int|
            #![trigger self.models[j]]
            0 <= j < self.models.len() ==> !deployment.selects(self.models[j], seen[id])
    }
}

/// A successful call of one write applies that write.
proof fn lemma_applies_one<T, R>(
    deployment: Deployment<T, R>,
    call: Call<T, R>,
    model: BulkWriteModel<T>,
    value: R,
    before: Store<T>,
    after: Store<T>,
)
    requires
        call.takes_effect(deployment, before, after),
        call.succeeds_with(value),
        call.writes(model),
    ensures
        deployment.applies(model, before.main, after.main, (deployment.tally)(value)),
{
    success_archives_each_document_once(call.models, call.mode, call.start, call.replies);
    assert(call.models[0] == model);
    assert(after.main =~= call.stages.last());
    reveal_with_fuel(total, 2);
    assert(total(call.tallies) == call.tallies[0]);
}

/// A successful write that matches one document archives that document, and nothing else.
proof fn lemma_archives_one<T, R>(
    deployment: Deployment<T, R>,
    call: Call<T, R>,
    model: BulkWriteModel<T>,
    value: R,
    before: Store<T>,
    after: Store<T>,
    id: int,
)
    requires
        call.takes_effect(deployment, before, after),
        call.succeeds_with(value),
        call.writes(model),
        model.archived_as() is Some,
        deployment.selects_only(model, before.main, id),
    ensures
        call.entries().len() == 1,
        call.entries()[0].document == before.main[id],
        Some(call.entries()[0].operation) == model.archived_as(),
{
    success_archives_each_document_once(call.models, call.mode, call.start, call.replies);
    let server = call.end().server;
    assert(call.models[0] == model);
    assert(server.exhausted.contains(0));
    assert(deployment.selects(call.models[0], before.main[id]));
    let k = choose|k: int|
        0 <= k < call.ids.len() && #[trigger] call.ids[k] == id && server.delivered[k].0 == 0;
    assert(call.ids[k] == id);
    if call.ids.len() > 1 {
        let j = if k == 0 {
            1int
        } else {
            0int
        };
        assert(call.entries()[j].document == server.delivered[j].1);
        assert(server.delivered[j].0 == 0);
        assert(before.main.contains_key(call.ids[j]));
        assert(call.ids[j] == id);
    }
    assert(call.entries()[0].document == server.delivered[0].1);
}

/// A successful write that matches no document archives nothing.
proof fn lemma_archives_none<T, R>(
    deployment: Deployment<T, R>,
    call: Call<T, R>,
    model: BulkWriteModel<T>,
    value: R,
    before: Store<T>,
    after: Store<T>,
)
    requires
        call.takes_effect(deployment, before, after),
        call.succeeds_with(value),
        call.writes(model),
        deployment.selects_nothing(model, before.main),
    ensures
        call.entries() =~= Seq::<HistoryEntry<T>>::empty(),
{
    success_archives_each_document_once(call.models, call.mode, call.start, call.replies);
    let server = call.end().server;
    if call.ids.len() > 0 {
        assert(call.entries()[0].document == server.delivered[0].1);
        assert(server.delivered[0].0 == 0);
        assert(before.main.contains_key(call.ids[0]));
    }
}

/// What a write makes of a document that it changes.
pub open spec fn version<T, R>(
    deployment: Deployment<T, R>,
    model: BulkWriteModel<T>,
    document: T,
) -> T {
    match model {
        BulkWriteModel::UpdateOne { update, .. } => (deployment.update)(update, document),
        BulkWriteModel::UpdateMany { update, .. } => (deployment.update)(update, document),
        BulkWriteModel::ReplaceOne { replacement, .. } => replacement,
        _ => document,
    }
}

/// Whether the write changes documents, and removes none.
pub open spec fn is_change<T>(model: BulkWriteModel<T>) -> bool {
    model is UpdateOne || model is UpdateMany || model is ReplaceOne
}

/// A successful change that matches one document changes that document, and nothing else.
proof fn lemma_changes_one<T, R>(
    deployment: Deployment<T, R>,
    call: Call<T, R>,
    model: BulkWriteModel<T>,
    value: R,
    before: Store<T>,
    after: Store<T>,
    id: int,
)
    requires
        call.takes_effect(deployment, before, after),
        call.succeeds_with(value),
        call.writes(model),
        is_change(model),
        deployment.selects_only(model, before.main, id),
    ensures
        after.main == before.main.insert(id, version(deployment, model, before.main[id])),
        (deployment.tally)(value) == (Tally {
            matched: 1,
            modified: if version(deployment, model, before.main[id]) != before.main[id] {
                1
            } else {
                0
            },
            ..Tally::none()
        }),
{
    let main = before.main;
    lemma_applies_one(deployment, call, model, value, before, after);
    assert(!deployment.selects_nothing(model, main)) by {
        assert(deployment.selects(model, main[id]));
    }
    if model is UpdateMany {
        assert(after.main =~= main.insert(id, version(deployment, model, main[id])));
        assert(deployment.selected(model, main) =~= set![id]);
        let changed = deployment.selected(model, main).filter(
            |other: int| after.main[other] != main[other],
        );
        if version(deployment, model, main[id]) != main[id] {
            assert(changed =~= set![id]);
        } else {
            assert(changed =~= Set::<int>::empty());
        }
    }
}

/// A write that does not match a document leaves it as it is.
proof fn lemma_spares<T, R>(
    deployment: Deployment<T, R>,
    model: BulkWriteModel<T>,
    main: Map<int, T>,
    after: Map<int, T>,
    tally: Tally,
    id: int,
)
    requires
        deployment.applies(model, main, after, tally),
        main.contains_key(id),
        !deployment.selects(model, main[id]),
    ensures
        after.contains_key(id),
        after[id] == main[id],
{
    if model is UpdateMany {
        assert(after.dom().contains(id));
    }
}

/// Writes that do not match a document leave it as it is.
proof fn lemma_stages_spare<T, R>(
    deployment: Deployment<T, R>,
    call: Call<T, R>,
    seen: Map<int, T>,
    id: int,
    from: int,
    to: int,
)
    requires
        call.is_applied(deployment, seen),
        0 <= from <= to <= call.models.len(),
        call.stages[from].contains_key(id),
        forall|j: int|
            #![trigger call.models[j]]
            from <= j < to ==> !deployment.selects(call.models[j], call.stages[from][id]),
    ensures
        call.stages[to].contains_key(id),
        call.stages[to][id] == call.stages[from][id],
    decreases to - from,
{
    if from < to {
        let j = to - 1;
        lemma_stages_spare(deployment, call, seen, id, from, j);
        lemma_spares(
            deployment,
            call.models[j],
            call.stages[j],
            call.stages[j + 1],
            call.tallies[j],
            id,
        );
    }
}

/// A batch in which one write changes a document makes of it what that write does.
proof fn lemma_batch_changes<T, R>(
    deployment: Deployment<T, R>,
    call: Call<T, R>,
    seen: Map<int, T>,
    id: int,
    position: int,
)
    requires
        call.is_applied(deployment, seen),
        call.changes(deployment, seen, id, position),
    ensures
        call.stages.last().contains_key(id),
        call.stages.last()[id] == version(deployment, call.models[position], seen[id]),
{
    let model = call.models[position];
    lemma_stages_spare(deployment, call, seen, id, 0, position);
    let main = call.stages[position];
    let after = call.stages[position + 1];
    assert(main.contains_key(id) && main[id] == seen[id]);
    assert(deployment.applies(model, main, after, call.tallies[position]));
    assert(after.contains_key(id) && after[id] == version(deployment, model, seen[id])) by {
        if model is UpdateMany {
            assert(after.dom().contains(id));
        } else {
            assert(!deployment.selects_nothing(model, main));
        }
    }
    lemma_stages_spare(
        deployment,
        call,
        seen,
        id,
        position + 1,
        call.models.len() as int,
    );
}

/// The entries that were made of the document `id`, in order; `owners` says of which document
/// each entry was made.
pub open spec fn entries_of<T>(
    entries: Seq<HistoryEntry<T>>,
    owners: Seq<int>,
    id: int,
) -> Seq<HistoryEntry<T>>
    decreases entries.len(),
{
    if entries.len() == 0 {
        Seq::empty()
    } else {
        let rest = entries_of(entries.drop_last(), owners.drop_last(), id);
        if owners.last() == id {
            rest.push(entries.last())
        } else {
            rest
        }
    }
}

proof fn lemma_entries_of_none<T>(entries: Seq<HistoryEntry<T>>, owners: Seq<int>, id: int)
    requires
        entries.len() == owners.len(),
        forall|k: int| 0 <= k < owners.len() ==> owners[k] != id,
    ensures
        entries_of(entries, owners, id) == Seq::<HistoryEntry<T>>::empty(),
    decreases entries.len(),
{
    if entries.len() > 0 {
        lemma_entries_of_none(entries.drop_last(), owners.drop_last(), id);
    }
}

proof fn lemma_entries_of_one<T>(
    entries: Seq<HistoryEntry<T>>,
    owners: Seq<int>,
    id: int,
    only: int,
)
    requires
        entries.len() == owners.len(),
        0 <= only < owners.len(),
        forall|k: int| 0 <= k < owners.len() ==> (owners[k] == id <==> k == only),
    ensures
        entries_of(entries, owners, id) == seq![entries[only]],
    decreases entries.len(),
{
    assert(owners[only] == id);
    if only == entries.len() - 1 {
        lemma_entries_of_none(entries.drop_last(), owners.drop_last(), id);
    } else {
        lemma_entries_of_one(entries.drop_last(), owners.drop_last(), id, only);
    }
}

proof fn lemma_entries_of_all<T>(entries: Seq<HistoryEntry<T>>, owners: Seq<int>, id: int)
    requires
        entries.len() == owners.len(),
        forall|k: int| 0 <= k < owners.len() ==> owners[k] == id,
    ensures
        entries_of(entries, owners, id) == entries,
    decreases entries.len(),
{
    if entries.len() > 0 {
        lemma_entries_of_all(entries.drop_last(), owners.drop_last(), id);
        assert(entries.drop_last().push(entries.last()) =~= entries);
    }
}

proof fn lemma_entries_of_both<T>(
    entries: Seq<HistoryEntry<T>>,
    owners: Seq<int>,
    more: Seq<HistoryEntry<T>>,
    more_owners: Seq<int>,
    id: int,
)
    requires
        entries.len() == owners.len(),
        more.len() == more_owners.len(),
    ensures
        entries_of(entries + more, owners + more_owners, id) == entries_of(entries, owners, id)
            + entries_of(more, more_owners, id),
    decreases more.len(),
{
    if more.len() == 0 {
        assert(entries + more =~= entries);
        assert(owners + more_owners =~= owners);
    } else {
        lemma_entries_of_both(entries, owners, more.drop_last(), more_owners.drop_last(), id);
        assert((entries + more).drop_last() =~= entries + more.drop_last());
        assert((owners + more_owners).drop_last() =~= owners + more_owners.drop_last());
    }
}

/// A successful batch in which one write matches a document archives that document once.
proof fn lemma_archives_once<T, R>(
    deployment: Deployment<T, R>,
    call: Call<T, R>,
    value: R,
    seen: Map<int, T>,
    before: Store<T>,
    after: Store<T>,
    id: int,
    position: int,
)
    requires
        call.lands(deployment, seen, before, after),
        call.succeeds_with(value),
        call.changes(deployment, seen, id, position),
    ensures
        call.owners().len() == call.entries().len(),
        entries_of(call.entries(), call.owners(), id).len() == 1,
        entries_of(call.entries(), call.owners(), id)[0].document == seen[id],
        Some(entries_of(call.entries(), call.owners(), id)[0].operation)
            == call.models[position].archived_as(),
{
    success_archives_each_document_once(call.models, call.mode, call.start, call.replies);
    let delivered = call.end().server.delivered;
    let entries = call.entries();
    assert(call.owners() =~= call.ids);
    assert(call.end().server.exhausted.contains(position));
    assert(deployment.selects(call.models[position], seen[id]));
    let k = choose|k: int|
        0 <= k < call.ids.len() && #[trigger] call.ids[k] == id && delivered[k].0 == position;
    assert forall|j: int| 0 <= j < call.owners().len() implies (call.owners()[j] == id <==> j
        == k) by {
        if call.ids[j] == id {
            assert(entries[j].document == delivered[j].1);
            assert(deployment.selects(call.models[delivered[j].0], seen[id]));
            assert(delivered[j].0 == position);
        }
    }
    lemma_entries_of_one(entries, call.owners(), id, k);
    assert(entries[k].document == delivered[k].1);
}

/// A call that took effect whole, or not at all, knows of which document each entry was made.
proof fn lemma_owners<T, R>(
    deployment: Deployment<T, R>,
    call: Call<T, R>,
    seen: Map<int, T>,
    before: Store<T>,
    after: Store<T>,
)
    requires
        call.lands(deployment, seen, before, after),
        call.is_whole(),
    ensures
        call.owners().len() == call.entries().len(),
        call.entries().len() > 0 ==> {
            &&& call.owners() == call.ids
            &&& forall|k: int|
                #![trigger call.ids[k]]
                0 <= k < call.ids.len() ==> 0 <= call.end().server.delivered[k].0
                    < call.models.len()
        },
        applied(call.end().server.durable) == 0 ==> call.entries().len() == 0,
{
    let server = call.end().server;
    if call.mode is Transactional {
        all_or_nothing(call.models, call.start, call.replies);
    } else {
        success_archives_each_document_once(call.models, call.mode, call.start, call.replies);
    }
    if server.durable.len() > 0 {
        assert(server.is_whole(server.durable, call.models));
        assert(call.owners() =~= call.ids);
        assert forall|k: int| #![trigger call.ids[k]] 0 <= k < call.ids.len() implies 0
            <= server.delivered[k].0 < call.models.len() by {
            assert(call.entries()[k].document == server.delivered[k].1);
        }
    }
}

/// Each call takes effect on what the one before it left. Its last attempt saw the main
/// collection as it was at that moment or, where others committed in the meantime, at an
/// earlier one: `seen` says for each call at which.
pub open spec fn follow<T, R>(
    deployment: Deployment<T, R>,
    calls: Seq<Call<T, R>>,
    stores: Seq<Store<T>>,
    seen: Seq<int>,
) -> bool {
    &&& stores.len() == calls.len() + 1
    &&& seen.len() == calls.len()
    &&& forall|k: int|
        #![trigger calls[k]]
        #![trigger seen[k]]
        0 <= k < calls.len() ==> {
            &&& 0 <= seen[k] <= k
            &&& calls[k].lands(deployment, stores[seen[k]].main, stores[k], stores[k + 1])
        }
}

/// The entries that the calls have added to the history, in order.
pub open spec fn new_entries<T, R>(calls: Seq<Call<T, R>>) -> Seq<HistoryEntry<T>>
    decreases calls.len(),
{
    if calls.len() == 0 {
        Seq::empty()
    } else {
        new_entries(calls.drop_last()) + calls.last().entries()
    }
}

/// Of which document each of these entries was made.
pub open spec fn new_owners<T, R>(calls: Seq<Call<T, R>>) -> Seq<int>
    decreases calls.len(),
{
    if calls.len() == 0 {
        Seq::empty()
    } else {
        new_owners(calls.drop_last()) + calls.last().owners()
    }
}

/// The history is append-only: whatever calls follow, whether they succeed or fail and whether
/// or not they overlap, every entry stays where it is, as it is.
pub proof fn calls_only_append<T, R>(
    deployment: Deployment<T, R>,
    calls: Seq<Call<T, R>>,
    stores: Seq<Store<T>>,
    seen: Seq<int>,
    earlier: int,
    later: int,
)
    requires
        follow(deployment, calls, stores, seen),
        0 <= earlier <= later < stores.len(),
    ensures
        stores[earlier].history.is_prefix_of(stores[later].history),
    decreases later - earlier,
{
    if earlier < later {
        calls_only_append(deployment, calls, stores, seen, earlier, later - 1);
        let call = calls[later - 1];
        assert(stores[later].history == stores[later - 1].history + call.entries());
    }
}

/// The history followed by the current document is the full sequence of versions: where `n`
/// calls succeed, each a batch in which one write changes the document `id` and no other write
/// matches it, the history gains exactly `n` entries of that document, the versions before
/// each call in order, each under the operation of its write, and the document is what the
/// last call made of it. No version is missing and none is there twice.
///
/// The calls stand in the order of their commits, and may have run at the same time: one that
/// saw an earlier version of the document than the one it took effect on cannot have changed
/// it. Only a call that overlapped others and left the document as it saw it is left out.
pub proof fn versions_are_complete<T, R>(
    deployment: Deployment<T, R>,
    calls: Seq<Call<T, R>>,
    stores: Seq<Store<T>>,
    seen: Seq<int>,
    positions: Seq<int>,
    id: int,
)
    requires
        follow(deployment, calls, stores, seen),
        positions.len() == calls.len(),
        forall|k: int|
            #![trigger calls[k]]
            0 <= k < calls.len() ==> {
                let main = stores[seen[k]].main;
                &&& exists|value: R| calls[k].succeeds_with(value)
                &&& calls[k].changes(deployment, main, id, positions[k])
                &&& seen[k] == k || version(deployment, calls[k].models[positions[k]], main[id])
                    != main[id]
            },
    ensures
        stores.last().history == stores[0].history + new_entries(calls),
        new_owners(calls).len() == new_entries(calls).len(),
        entries_of(new_entries(calls), new_owners(calls), id).len() == calls.len(),
        forall|k: int|
            #![trigger calls[k]]
            0 <= k < calls.len() ==> {
                let entry = entries_of(new_entries(calls), new_owners(calls), id)[k];
                let model = calls[k].models[positions[k]];
                &&& entry.document == stores[k].main[id]
                &&& Some(entry.operation) == model.archived_as()
                &&& stores[k].main.contains_key(id)
                &&& stores[k + 1].main.contains_key(id)
                &&& stores[k + 1].main[id] == version(deployment, model, stores[k].main[id])
            },
    decreases calls.len(),
{
    if calls.len() == 0 {
        assert(stores.last().history =~= stores[0].history + new_entries(calls));
    } else {
        let n = calls.len() - 1;
        let call = calls[n];
        let main = stores[seen[n]].main;
        let init = calls.drop_last();
        let kept = stores.drop_last();
        let init_seen = seen.drop_last();
        let init_positions = positions.drop_last();
        assert forall|k: int| #![trigger init[k]] 0 <= k < init.len() implies {
            &&& exists|value: R| init[k].succeeds_with(value)
            &&& init[k].changes(deployment, kept[init_seen[k]].main, id, init_positions[k])
            &&& init_seen[k] == k || version(
                deployment,
                init[k].models[init_positions[k]],
                kept[init_seen[k]].main[id],
            ) != kept[init_seen[k]].main[id]
        } by {
            assert(init[k] == calls[k]);
        }
        versions_are_complete(deployment, init, kept, init_seen, init_positions, id);
        let value = choose|value: R| call.succeeds_with(value);
        lemma_archives_once(
            deployment,
            call,
            value,
            main,
            stores[n],
            stores[n + 1],
            id,
            positions[n],
        );
        success_archives_each_document_once(call.models, call.mode, call.start, call.replies);
        lemma_batch_changes(deployment, call, main, id, positions[n]);
        lemma_entries_of_both(
            new_entries(init),
            new_owners(init),
            call.entries(),
            call.owners(),
            id,
        );
        assert(stores.last().history =~= stores[0].history + new_entries(calls));
        let made = call.stages.last();
        assert(is_written(main, made, id) ==> !is_written(main, stores[n].main, id));
        assert forall|k: int| #![trigger calls[k]] 0 <= k < calls.len() implies {
            let entry = entries_of(new_entries(calls), new_owners(calls), id)[k];
            let model = calls[k].models[positions[k]];
            &&& entry.document == stores[k].main[id]
            &&& Some(entry.operation) == model.archived_as()
            &&& stores[k].main.contains_key(id)
            &&& stores[k + 1].main.contains_key(id)
            &&& stores[k + 1].main[id] == version(deployment, model, stores[k].main[id])
        } by {
            if k < n {
                assert(init[k] == calls[k]);
                assert(kept[k] == stores[k] && kept[k + 1] == stores[k + 1]);
            }
        }
    }
}

/// Where no write of the calls matches any document but `id`, every entry that they add to the
/// history is one of that document.
pub proof fn other_documents_are_not_archived<T, R>(
    deployment: Deployment<T, R>,
    calls: Seq<Call<T, R>>,
    stores: Seq<Store<T>>,
    seen: Seq<int>,
    id: int,
)
    requires
        follow(deployment, calls, stores, seen),
        forall|k: int|
            #![trigger calls[k]]
            0 <= k < calls.len() ==> calls[k].is_whole() && forall|other: int| #[trigger]
                stores[seen[k]].main.contains_key(other) && other != id ==> calls[k].passes_by(
                    deployment,
                    stores[seen[k]].main,
                    other,
                ),
    ensures
        entries_of(new_entries(calls), new_owners(calls), id) == new_entries(calls),
        new_owners(calls).len() == new_entries(calls).len(),
    decreases calls.len(),
{
    if calls.len() > 0 {
        let n = calls.len() - 1;
        let call = calls[n];
        let main = stores[seen[n]].main;
        let init = calls.drop_last();
        let kept = stores.drop_last();
        let init_seen = seen.drop_last();
        assert forall|k: int| #![trigger init[k]] 0 <= k < init.len() implies {
            &&& init[k].is_whole()
            &&& forall|other: int| #[trigger]
                kept[init_seen[k]].main.contains_key(other) && other != id ==> init[k].passes_by(
                    deployment,
                    kept[init_seen[k]].main,
                    other,
                )
        } by {
            assert(init[k] == calls[k]);
        }
        other_documents_are_not_archived(deployment, init, kept, init_seen, id);
        lemma_owners(deployment, call, main, stores[n], stores[n + 1]);
        assert forall|j: int| 0 <= j < call.owners().len() implies call.owners()[j] == id by {
            let other = call.ids[j];
            assert(main.contains_key(other));
            assert(deployment.selects(call.models[call.end().server.delivered[j].0], main[other]));
        }
        lemma_entries_of_all(call.entries(), call.owners(), id);
        lemma_entries_of_both(
            new_entries(init),
            new_owners(init),
            call.entries(),
            call.owners(),
            id,
        );
    }
}

/// A call whose writes do not match a document, be it a transaction that fails or a call that
/// succeeds, leaves that document as it is and archives no version of it, whatever else it
/// writes and whatever others commit in the meantime.
pub proof fn unmatched_documents_are_left_alone<T, R>(
    deployment: Deployment<T, R>,
    call: Call<T, R>,
    seen: Map<int, T>,
    before: Store<T>,
    after: Store<T>,
    id: int,
)
    requires
        call.lands(deployment, seen, before, after),
        call.is_whole(),
        call.passes_by(deployment, seen, id),
        before.main.contains_key(id),
    ensures
        after.main.contains_key(id),
        after.main[id] == before.main[id],
        entries_of(call.entries(), call.owners(), id) == Seq::<HistoryEntry<T>>::empty(),
{
    lemma_owners(deployment, call, seen, before, after);
    if applied(call.end().server.durable) > 0 {
        lemma_stages_spare(deployment, call, seen, id, 0, call.models.len() as int);
        assert(!is_written(seen, call.stages.last(), id));
    }
    assert forall|j: int| 0 <= j < call.owners().len() implies call.owners()[j] != id by {
        assert(deployment.selects(
            call.models[call.end().server.delivered[j].0],
            seen[call.ids[j]],
        ));
    }
    lemma_entries_of_none(call.entries(), call.owners(), id);
}

/// What two updates of the document `id` leave when they are made one after the other: the
/// new entries are the version before both and the version that `first` produced, and the
/// document is what `second` made of that.
pub open spec fn is_serial<T, R>(
    deployment: Deployment<T, R>,
    first: bson::Document,
    second: bson::Document,
    before: Store<T>,
    after: Store<T>,
    id: int,
) -> bool {
    let v0 = before.main[id];
    let v1 = (deployment.update)(first, v0);
    let v2 = (deployment.update)(second, v1);
    let n = before.history.len() as int;
    &&& after.history.len() == n + 2
    &&& before.history.is_prefix_of(after.history)
    &&& after.history[n].document == v0
    &&& after.history[n].operation is Update
    &&& after.history[n + 1].document == v1
    &&& after.history[n + 1].operation is Update
    &&& after.main == before.main.insert(id, v2)
}

/// Two updates of one document that run at the same time and both succeed leave what they
/// would leave one after the other, in some order. No version is lost and none is archived
/// twice, however often either call was started again.
///
/// `first` and `second` are the calls in the order of their commits. The last attempt of the
/// second may have seen the main collection, as `seen`, before or after the first committed.
pub proof fn concurrent_updates_are_serial<T, R>(
    deployment: Deployment<T, R>,
    first: Call<T, R>,
    second: Call<T, R>,
    filter: bson::Document,
    first_update: bson::Document,
    second_update: bson::Document,
    first_value: R,
    second_value: R,
    seen: Map<int, T>,
    before: Store<T>,
    between: Store<T>,
    after: Store<T>,
    id: int,
)
    requires
        first.writes(BulkWriteModel::UpdateOne { filter, update: first_update }),
        second.writes(BulkWriteModel::UpdateOne { filter, update: second_update }),
        first.succeeds_with(first_value),
        second.succeeds_with(second_value),
        first.lands(deployment, before.main, before, between),
        second.lands(deployment, seen, between, after),
        seen == before.main || seen == between.main,
        before.main.contains_key(id),
        forall|other: int| #[trigger]
            before.main.contains_key(other) ==> ((deployment.matches)(filter, before.main[other])
                <==> other == id),
        (deployment.matches)(filter, (deployment.update)(first_update, before.main[id])),
    ensures
        ({
            ||| is_serial(deployment, first_update, second_update, before, after, id)
            ||| is_serial(deployment, second_update, first_update, before, after, id)
        }),
{
    let one = BulkWriteModel::<T>::UpdateOne { filter, update: first_update };
    let two = BulkWriteModel::<T>::UpdateOne { filter, update: second_update };
    let v0 = before.main[id];
    let v1 = (deployment.update)(first_update, v0);
    lemma_archives_one(deployment, first, one, first_value, before, between, id);
    lemma_changes_one(deployment, first, one, first_value, before, between, id);
    assert forall|other: int| #[trigger] between.main.contains_key(other) implies (
    deployment.selects(two, between.main[other]) <==> other == id) by {
        assert(before.main.contains_key(other));
    }
    // The second call, as if the store had been what it saw.
    let at = Store { main: seen, history: between.history };
    let made = Store { main: second.stages.last(), history: after.history };
    success_archives_each_document_once(second.models, second.mode, second.start, second.replies);
    assert(made.main =~= merged(seen, seen, made.main));
    assert(deployment.selects_only(two, seen, id));
    lemma_archives_one(deployment, second, two, second_value, at, made, id);
    lemma_changes_one(deployment, second, two, second_value, at, made, id);
    let v2 = (deployment.update)(second_update, seen[id]);
    assert(is_written(seen, made.main, id) ==> !is_written(seen, between.main, id));
    if v2 != seen[id] || seen[id] == v1 {
        assert(seen[id] == v1);
        assert(after.main =~= before.main.insert(id, v2));
        assert(is_serial(deployment, first_update, second_update, before, after, id));
    } else {
        assert(after.main =~= before.main.insert(id, v1));
        assert(is_serial(deployment, second_update, first_update, before, after, id));
    }
}

/// Where at most one document matches, `update_one` and `update_many` are the same: from equal
/// stores they leave equal main collections and, dates aside, equal entries, and their results
/// count the same.
pub proof fn one_is_many_of_one<T, R>(
    deployment: Deployment<T, R>,
    one: Call<T, R>,
    many: Call<T, R>,
    filter: bson::Document,
    update: bson::Document,
    one_value: R,
    many_value: R,
    before: Store<T>,
    after_one: Store<T>,
    after_many: Store<T>,
)
    requires
        one.writes(BulkWriteModel::UpdateOne { filter, update }),
        many.writes(BulkWriteModel::UpdateMany { filter, update }),
        one.succeeds_with(one_value),
        many.succeeds_with(many_value),
        one.takes_effect(deployment, before, after_one),
        many.takes_effect(deployment, before, after_many),
        forall|i: int, j: int|
            #![trigger before.main[i], before.main[j]]
            before.main.contains_key(i) && before.main.contains_key(j) && (deployment.matches)(
                filter,
                before.main[i],
            ) && (deployment.matches)(filter, before.main[j]) ==> i == j,
    ensures
        after_one.main == after_many.main,
        one.entries().len() == many.entries().len(),
        forall|k: int|
            0 <= k < one.entries().len() ==> {
                &&& (#[trigger] one.entries()[k]).document == many.entries()[k].document
                &&& one.entries()[k].operation == many.entries()[k].operation
            },
        (deployment.tally)(one_value) == (deployment.tally)(many_value),
{
    let model_one = BulkWriteModel::<T>::UpdateOne { filter, update };
    let model_many = BulkWriteModel::<T>::UpdateMany { filter, update };
    let main = before.main;
    if deployment.selects_nothing(model_one, main) {
        assert(deployment.selects_nothing(model_many, main));
        lemma_archives_none(deployment, one, model_one, one_value, before, after_one);
        lemma_archives_none(deployment, many, model_many, many_value, before, after_many);
        lemma_applies_one(deployment, one, model_one, one_value, before, after_one);
        lemma_applies_one(deployment, many, model_many, many_value, before, after_many);
        assert(after_many.main =~= main);
        assert(deployment.selected(model_many, main) =~= Set::<int>::empty());
        assert(deployment.selected(model_many, main).filter(
            |other: int| after_many.main[other] != main[other],
        ) =~= Set::<int>::empty());
    } else {
        let id = choose|id: int| #[trigger]
            main.contains_key(id) && deployment.selects(model_one, main[id]);
        assert(deployment.selects_only(model_one, main, id));
        assert(deployment.selects_only(model_many, main, id));
        lemma_archives_one(deployment, one, model_one, one_value, before, after_one, id);
        lemma_archives_one(deployment, many, model_many, many_value, before, after_many, id);
        lemma_changes_one(deployment, one, model_one, one_value, before, after_one, id);
        lemma_changes_one(deployment, many, model_many, many_value, before, after_many, id);
    }
}

/// The archived version undoes a replacement: the entry of a `replace_one` holds the document
/// as it was, replacing the document by it restores the main collection, and the history gains
/// exactly the two versions that were replaced, in order.
pub proof fn archived_version_undoes_a_replacement<T, R>(
    deployment: Deployment<T, R>,
    replace: Call<T, R>,
    restore: Call<T, R>,
    filter: bson::Document,
    replacement: T,
    replace_value: R,
    restore_value: R,
    before: Store<T>,
    between: Store<T>,
    after: Store<T>,
    id: int,
)
    requires
        replace.writes(BulkWriteModel::ReplaceOne { filter, replacement }),
        replace.succeeds_with(replace_value),
        replace.takes_effect(deployment, before, between),
        restore.writes(
            BulkWriteModel::ReplaceOne { filter, replacement: replace.entries()[0].document },
        ),
        restore.succeeds_with(restore_value),
        restore.takes_effect(deployment, between, after),
        deployment.selects_only(
            BulkWriteModel::ReplaceOne { filter, replacement },
            before.main,
            id,
        ),
        (deployment.matches)(filter, replacement),
    ensures
        replace.entries()[0].document == before.main[id],
        after.main == before.main,
        after.history.len() == before.history.len() + 2,
        before.history.is_prefix_of(after.history),
        after.history[before.history.len() as int].document == before.main[id],
        after.history[before.history.len() as int].operation is Replace,
        after.history[before.history.len() as int + 1].document == replacement,
        after.history[before.history.len() as int + 1].operation is Replace,
{
    let there = BulkWriteModel::<T>::ReplaceOne { filter, replacement };
    let back = BulkWriteModel::<T>::ReplaceOne {
        filter,
        replacement: replace.entries()[0].document,
    };
    lemma_archives_one(deployment, replace, there, replace_value, before, between, id);
    lemma_changes_one(deployment, replace, there, replace_value, before, between, id);
    assert forall|other: int| #[trigger] between.main.contains_key(other) implies (
    deployment.selects(back, between.main[other]) <==> other == id) by {
        assert(before.main.contains_key(other));
    }
    lemma_archives_one(deployment, restore, back, restore_value, between, after, id);
    lemma_changes_one(deployment, restore, back, restore_value, between, after, id);
    assert(after.main =~= before.main);
}

/// A delete that is repeated deletes nothing and archives nothing: where `delete_one` matched
/// one document, the same call made again leaves the main collection and the history as the
/// first left them.
pub proof fn repeated_delete_changes_nothing<T, R>(
    deployment: Deployment<T, R>,
    first: Call<T, R>,
    second: Call<T, R>,
    filter: bson::Document,
    first_value: R,
    second_value: R,
    before: Store<T>,
    between: Store<T>,
    after: Store<T>,
    id: int,
)
    requires
        first.writes(BulkWriteModel::DeleteOne { filter }),
        second.writes(BulkWriteModel::DeleteOne { filter }),
        first.succeeds_with(first_value),
        second.succeeds_with(second_value),
        first.takes_effect(deployment, before, between),
        second.takes_effect(deployment, between, after),
        deployment.selects_only(BulkWriteModel::DeleteOne { filter }, before.main, id),
    ensures
        (deployment.tally)(first_value).deleted == 1,
        between.main == before.main.remove(id),
        first.entries().len() == 1,
        first.entries()[0].document == before.main[id],
        first.entries()[0].operation is Delete,
        (deployment.tally)(second_value).deleted == 0,
        after == between,
{
    let model = BulkWriteModel::<T>::DeleteOne { filter };
    lemma_applies_one(deployment, first, model, first_value, before, between);
    lemma_applies_one(deployment, second, model, second_value, between, after);
    assert(!deployment.selects_nothing(model, before.main)) by {
        assert(before.main.contains_key(id));
    }
    lemma_archives_one(deployment, first, model, first_value, before, between, id);
    assert forall|other: int| #[trigger] between.main.contains_key(other) implies !(
    deployment.selects(model, between.main[other])) by {
        assert(before.main.contains_key(other));
    }
    lemma_archives_none(deployment, second, model, second_value, between, after);
    assert(after.history =~= between.history);
}

/// The collections of a database, by name: the documents and the history entries in each.
pub struct Contents<T> {
    pub documents: Map<Seq<char>, Map<int, T>>,
    pub entries: Map<Seq<char>, Seq<HistoryEntry<T>>>,
}

impl<T> Contents<T> {
    /// The collections of these two names as a store.
    pub open spec fn store(self, collection_name: Seq<char>, history_name: Seq<char>) -> Store<T> {
        Store { main: self.documents[collection_name], history: self.entries[history_name] }
    }
}

/// An insert that is made through a handle goes to the collection that the driver calls the
/// handle by, and nowhere else.
pub open spec fn is_inserted<T: Send + Sync>(
    handle: mongodb::Collection<T>,
    id: int,
    document: T,
    before: Contents<T>,
    after: Contents<T>,
) -> bool {
    forall|name: Seq<char>| #[trigger]
        is_named(handle, name) ==> after == (Contents {
            documents: before.documents.insert(
                name,
                before.documents[name].insert(id, document),
            ),
            entries: before.entries,
        })
}

/// A call takes effect on the collections that the driver calls the two handles by, and
/// nowhere else.
pub open spec fn is_called<T: Send + Sync, R>(
    handles: Handles<T>,
    deployment: Deployment<T, R>,
    call: Call<T, R>,
    before: Contents<T>,
    after: Contents<T>,
) -> bool {
    forall|name: Seq<char>, history_name: Seq<char>| #[trigger]
        is_named(handles.collection, name) && #[trigger] is_named(handles.history, history_name)
            ==> {
            let store = after.store(name, history_name);
            &&& call.takes_effect(deployment, before.store(name, history_name), store)
            &&& after.documents == before.documents.insert(name, store.main)
            &&& after.entries == before.entries.insert(history_name, store.history)
        }
}

/// `collection()` is the plain collection: a document that is inserted through it adds nothing
/// to the history, and a mutating call that matches it archives it.
pub proof fn inserted_documents_are_tracked<T: Send + Sync, R>(
    handles: Handles<T>,
    db: mongodb::Database,
    collection_name: Seq<char>,
    history_name: Seq<char>,
    deployment: Deployment<T, R>,
    id: int,
    document: T,
    call: Call<T, R>,
    model: BulkWriteModel<T>,
    value: R,
    before: Contents<T>,
    between: Contents<T>,
    after: Contents<T>,
)
    requires
        handles.wrap(db, collection_name, history_name),
        is_inserted(handles.collection, id, document, before, between),
        is_called(handles, deployment, call, between, after),
        call.writes(model),
        call.succeeds_with(value),
        deployment.selects(model, document),
    ensures
        between.entries == before.entries,
        between.documents[collection_name] == before.documents[collection_name].insert(
            id,
            document,
        ),
        exists|k: int|
            0 <= k < call.entries().len() && (#[trigger] call.entries()[k]).document == document
                && Some(call.entries()[k].operation) == model.archived_as(),
        after.entries[history_name] == before.entries[history_name] + call.entries(),
{
    assert(is_named(handles.collection, collection_name));
    assert(is_named(handles.history, history_name));
    success_archives_each_document_once(call.models, call.mode, call.start, call.replies);
    let server = call.end().server;
    let main = between.documents[collection_name];
    assert(call.models[0] == model);
    assert(server.exhausted.contains(0));
    assert(main[id] == document);
    let k = choose|k: int|
        0 <= k < call.ids.len() && #[trigger] call.ids[k] == id && server.delivered[k].0 == 0;
    assert(main[call.ids[k]] == server.delivered[k].1);
    assert(call.entries()[k].document == document);
}

/// `history()` is the collection of the history name: as soon as a call has returned it holds
/// every entry that the call archived, after those that were there, and none of them is in the
/// main collection.
pub proof fn entries_are_in_the_history<T: Send + Sync, R>(
    handles: Handles<T>,
    db: mongodb::Database,
    collection_name: Seq<char>,
    history_name: Seq<char>,
    deployment: Deployment<T, R>,
    call: Call<T, R>,
    before: Contents<T>,
    after: Contents<T>,
)
    requires
        handles.wrap(db, collection_name, history_name),
        history_name != collection_name,
        is_called(handles, deployment, call, before, after),
    ensures
        after.entries[history_name] == before.entries[history_name] + call.entries(),
        after.entries.contains_key(collection_name) == before.entries.contains_key(
            collection_name,
        ),
        after.entries[collection_name] == before.entries[collection_name],
{
    assert(is_named(handles.collection, collection_name));
    assert(is_named(handles.history, history_name));
}

} // verus!
