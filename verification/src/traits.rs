//! The capabilities that the services work with: a clock, a store of
//! weights, a store of batches and a store of sharing grants.
//!
//! Each store is known to the services by a mathematical model: the weights
//! and the batches as sequences of record views in the order in which they
//! were first stored, the grants as a set. The contracts of the methods say
//! how each call reads or changes the model.

use vstd::prelude::*;
use crate::errors::TrackerError;
use crate::models::{
    batch_views, opt_str, opt_text, weight_views, Batch, BatchView, Grant, Weight, WeightKey,
    WeightKeyView, WeightView,
};
use crate::principal::Principal;
use crate::value::WeightValue;

verus! {

/// The clock: a logical timestamp for the current operation.
pub trait TimeProvider: Clone {
    /// The current time. Nothing is promised of the value.
    fn get_time(&self) -> u64;
}

/// The clock of a canister: the time of the current call as the system
/// reports it, in nanoseconds since 1970.
#[derive(Clone, Copy, Debug)]
pub struct CanisterTimeProvider;

/// Asks `ic_cdk::api::time` for the current time. Nothing is claimed of the
/// value. The call is answered by the system that runs the canister, so the
/// clock is for use inside a canister only: anywhere else the call fails.
#[verifier::external_body]
fn canister_time() -> (now: u64) {
    ic_cdk::api::time()
}

impl TimeProvider for CanisterTimeProvider {
    fn get_time(&self) -> u64 {
        canister_time()
    }
}

/// Some record has the given identity.
pub open spec fn has_weight(entries: Seq<WeightView>, key: WeightKeyView) -> bool {
    exists|i: int| 0 <= i < entries.len() && (#[trigger] entries[i]).key() == key
}

/// The position of the record with the given identity.
pub open spec fn weight_index(entries: Seq<WeightView>, key: WeightKeyView) -> int {
    choose|i: int| 0 <= i < entries.len() && (#[trigger] entries[i]).key() == key
}

/// No two records share an identity.
pub open spec fn weights_wf(entries: Seq<WeightView>) -> bool {
    forall|i: int, j: int|
        #![trigger entries[i], entries[j]]
        0 <= i < j < entries.len() ==> entries[i].key() != entries[j].key()
}

/// The records after one is stored: it takes the place of the record with
/// its identity, or comes last when there is none.
pub open spec fn put_weight(entries: Seq<WeightView>, weight: WeightView) -> Seq<WeightView> {
    if has_weight(entries, weight.key()) {
        entries.update(weight_index(entries, weight.key()), weight)
    } else {
        entries.push(weight)
    }
}

/// Whether a listing with the given filters shows the record.
pub open spec fn weight_selected(weight: WeightView, batch_id: Option<Seq<char>>, include_deleted: bool) -> bool {
    &&& batch_id matches Some(id) ==> weight.batch_id == id
    &&& include_deleted || weight.live()
}

/// The records that a listing with the given filters shows, in store order.
pub open spec fn select_weights(
    entries: Seq<WeightView>,
    batch_id: Option<Seq<char>>,
    include_deleted: bool,
) -> Seq<WeightView> {
    entries.filter(|w: WeightView| weight_selected(w, batch_id, include_deleted))
}

/// The records once the record with identity `key` has the new value, as
/// updated at `now`.
pub open spec fn weight_updated_at(
    before: Seq<WeightView>,
    key: WeightKeyView,
    value: WeightValue,
    now: u64,
) -> Seq<WeightView> {
    let i = weight_index(before, key);
    before.update(i, before[i].with_value(value, now))
}

/// The records once the record with identity `key` is soft-deleted at `now`.
pub open spec fn weight_deleted_at(before: Seq<WeightView>, key: WeightKeyView, now: u64) -> Seq<WeightView> {
    let i = weight_index(before, key);
    before.update(i, before[i].deleted(now))
}

/// `after` is `before` but for the record with identity `key`, which has the
/// new value and whatever time of update the clock gave.
pub open spec fn weight_updated(
    before: Seq<WeightView>,
    after: Seq<WeightView>,
    key: WeightKeyView,
    value: WeightValue,
) -> bool {
    let i = weight_index(before, key);
    &&& has_weight(before, key)
    &&& after.len() == before.len()
    &&& after == weight_updated_at(before, key, value, after[i].updated_at)
}

/// `after` is `before` but for the record with identity `key`, which is
/// soft-deleted at whatever time the clock gave.
pub open spec fn weight_deleted(before: Seq<WeightView>, after: Seq<WeightView>, key: WeightKeyView) -> bool {
    let i = weight_index(before, key);
    &&& has_weight(before, key)
    &&& after.len() == before.len()
    &&& after[i].deleted_at is Some
    &&& after == weight_deleted_at(before, key, after[i].deleted_at.unwrap())
}

/// A store of weight records, each under its identity.
///
/// The identity of a record is made of the record's own owner, item and
/// time of creation, so the store's model is the records alone and its
/// invariant is that no two of them share an identity. A key is the way to
/// name a record, never a second place to hold other values: `create` takes
/// the key that is the record's identity.
pub trait WeightRepository {
    /// The records, in the order in which their identities were first stored.
    spec fn entries(&self) -> Seq<WeightView>;

    /// Stores a record under its identity, in place of the record that had
    /// that identity before. Always succeeds. The key is the identity of the
    /// record that is stored.
    fn create(&mut self, key: WeightKey, weight: Weight) -> (r: Result<(), TrackerError>)
        requires
            weights_wf(old(self).entries()),
            key@ == weight@.key(),
        ensures
            r is Ok,
            final(self).entries() == put_weight(old(self).entries(), weight@),
            weights_wf(final(self).entries()),
    ;

    /// The records of one batch, or of all batches, without the soft-deleted
    /// ones unless they are asked for.
    fn get_all(&self, batch_id: Option<String>, include_deleted: bool) -> (r: Vec<Weight>)
        ensures
            weight_views(r@) == select_weights(self.entries(), opt_text(batch_id), include_deleted),
    ;

    /// Gives the record with the given identity a new value and `now` as its
    /// time of update.
    fn update_at(&mut self, key: WeightKey, new_weight: WeightValue, now: u64) -> (r: Result<(), TrackerError>)
        requires
            weights_wf(old(self).entries()),
        ensures
            weights_wf(final(self).entries()),
            match r {
                Ok(()) => {
                    &&& has_weight(old(self).entries(), key@)
                    &&& final(self).entries() == weight_updated_at(old(self).entries(), key@, new_weight, now)
                },
                Err(e) => {
                    &&& e == TrackerError::WeightNotFound
                    &&& !has_weight(old(self).entries(), key@)
                    &&& final(self).entries() == old(self).entries()
                },
            },
    ;

    /// Soft-deletes the record with the given identity at `now`, also when
    /// it is soft-deleted already.
    fn delete_at(&mut self, key: WeightKey, now: u64) -> (r: Result<(), TrackerError>)
        requires
            weights_wf(old(self).entries()),
        ensures
            weights_wf(final(self).entries()),
            match r {
                Ok(()) => {
                    &&& has_weight(old(self).entries(), key@)
                    &&& final(self).entries() == weight_deleted_at(old(self).entries(), key@, now)
                },
                Err(e) => {
                    &&& e == TrackerError::WeightNotFound
                    &&& !has_weight(old(self).entries(), key@)
                    &&& final(self).entries() == old(self).entries()
                },
            },
    ;

    /// Gives the record with the given identity a new value and the current
    /// time as its time of update: `update_at` with what the clock says.
    fn update(&mut self, key: WeightKey, new_weight: WeightValue) -> (r: Result<(), TrackerError>)
        requires
            weights_wf(old(self).entries()),
        ensures
            weights_wf(final(self).entries()),
            match r {
                Ok(()) => weight_updated(old(self).entries(), final(self).entries(), key@, new_weight),
                Err(e) => {
                    &&& e == TrackerError::WeightNotFound
                    &&& !has_weight(old(self).entries(), key@)
                    &&& final(self).entries() == old(self).entries()
                },
            },
    ;

    /// Soft-deletes the record with the given identity at the current time,
    /// also when it is soft-deleted already: `delete_at` with what the clock
    /// says.
    fn delete(&mut self, key: WeightKey) -> (r: Result<(), TrackerError>)
        requires
            weights_wf(old(self).entries()),
        ensures
            weights_wf(final(self).entries()),
            match r {
                Ok(()) => weight_deleted(old(self).entries(), final(self).entries(), key@),
                Err(e) => {
                    &&& e == TrackerError::WeightNotFound
                    &&& !has_weight(old(self).entries(), key@)
                    &&& final(self).entries() == old(self).entries()
                },
            },
    ;
}

/// Some batch has the given identifier.
pub open spec fn has_batch(entries: Seq<BatchView>, id: Seq<char>) -> bool {
    exists|i: int| 0 <= i < entries.len() && (#[trigger] entries[i]).id == id
}

/// The position of the batch with the given identifier.
pub open spec fn batch_index(entries: Seq<BatchView>, id: Seq<char>) -> int {
    choose|i: int| 0 <= i < entries.len() && (#[trigger] entries[i]).id == id
}

/// The batch with the given identifier.
pub open spec fn batch_at(entries: Seq<BatchView>, id: Seq<char>) -> BatchView {
    entries[batch_index(entries, id)]
}

/// No two batches share an identifier.
pub open spec fn batches_wf(entries: Seq<BatchView>) -> bool {
    forall|i: int, j: int|
        #![trigger entries[i], entries[j]]
        0 <= i < j < entries.len() ==> entries[i].id != entries[j].id
}

/// The batches after one is stored: it takes the place of the batch with its
/// identifier, or comes last when there is none.
pub open spec fn put_batch(entries: Seq<BatchView>, batch: BatchView) -> Seq<BatchView> {
    if has_batch(entries, batch.id) {
        entries.update(batch_index(entries, batch.id), batch)
    } else {
        entries.push(batch)
    }
}

/// The batches that a listing shows, in store order.
pub open spec fn select_batches(entries: Seq<BatchView>, include_deleted: bool) -> Seq<BatchView> {
    entries.filter(|b: BatchView| include_deleted || b.live())
}

/// The batches once the batch `id` has the new name and description, as
/// updated at `now`.
pub open spec fn batch_renamed_at(
    before: Seq<BatchView>,
    id: Seq<char>,
    name: Seq<char>,
    description: Option<Seq<char>>,
    now: u64,
) -> Seq<BatchView> {
    let i = batch_index(before, id);
    before.update(i, before[i].renamed(name, description, now))
}

/// The batches once the batch `id` is soft-deleted at `now`.
pub open spec fn batch_deleted_at(before: Seq<BatchView>, id: Seq<char>, now: u64) -> Seq<BatchView> {
    let i = batch_index(before, id);
    before.update(i, before[i].deleted(now))
}

/// `after` is `before` but for the batch `id`, which has the new name and
/// description and whatever time of update the clock gave.
pub open spec fn batch_renamed(
    before: Seq<BatchView>,
    after: Seq<BatchView>,
    id: Seq<char>,
    name: Seq<char>,
    description: Option<Seq<char>>,
) -> bool {
    let i = batch_index(before, id);
    &&& has_batch(before, id)
    &&& after.len() == before.len()
    &&& after == batch_renamed_at(before, id, name, description, after[i].updated_at)
}

/// `after` is `before` but for the batch `id`, which was live and is
/// soft-deleted at whatever time the clock gave.
pub open spec fn batch_deleted(before: Seq<BatchView>, after: Seq<BatchView>, id: Seq<char>) -> bool {
    let i = batch_index(before, id);
    &&& has_batch(before, id)
    &&& before[i].live()
    &&& after.len() == before.len()
    &&& after[i].deleted_at is Some
    &&& after == batch_deleted_at(before, id, after[i].deleted_at.unwrap())
}

/// A store of batches, each under its identifier.
pub trait BatchRepository {
    /// The batches, in the order in which their identifiers were first
    /// stored.
    spec fn entries(&self) -> Seq<BatchView>;

    /// Stores a batch under its identifier, in place of the batch that had
    /// that identifier before, and returns the identifier. Always succeeds.
    fn create(&mut self, batch: Batch) -> (r: Result<String, TrackerError>)
        requires
            batches_wf(old(self).entries()),
        ensures
            r matches Ok(id) && id@ == batch@.id,
            final(self).entries() == put_batch(old(self).entries(), batch@),
            batches_wf(final(self).entries()),
    ;

    /// The batch with the given identifier, if there is one.
    fn get(&self, id: &str) -> (r: Option<Batch>)
        requires
            batches_wf(self.entries()),
        ensures
            match r {
                Some(batch) => has_batch(self.entries(), id@) && batch@ == batch_at(self.entries(), id@),
                None => !has_batch(self.entries(), id@),
            },
    ;

    /// All batches, without the soft-deleted ones unless they are asked for.
    fn get_all(&self, include_deleted: bool) -> (r: Vec<Batch>)
        ensures
            batch_views(r@) == select_batches(self.entries(), include_deleted),
    ;

    /// Gives the batch a new name and description and `now` as its time of
    /// update.
    fn update_at(&mut self, id: &str, name: String, description: Option<String>, now: u64) -> (r: Result<
        (),
        TrackerError,
    >)
        requires
            batches_wf(old(self).entries()),
        ensures
            batches_wf(final(self).entries()),
            match r {
                Ok(()) => {
                    &&& has_batch(old(self).entries(), id@)
                    &&& final(self).entries() == batch_renamed_at(
                        old(self).entries(),
                        id@,
                        name@,
                        opt_text(description),
                        now,
                    )
                },
                Err(e) => {
                    &&& e == TrackerError::BatchNotFound
                    &&& !has_batch(old(self).entries(), id@)
                    &&& final(self).entries() == old(self).entries()
                },
            },
    ;

    /// Soft-deletes a live batch at `now`.
    fn delete_at(&mut self, id: &str, now: u64) -> (r: Result<(), TrackerError>)
        requires
            batches_wf(old(self).entries()),
        ensures
            batches_wf(final(self).entries()),
            match r {
                Ok(()) => {
                    &&& has_batch(old(self).entries(), id@)
                    &&& batch_at(old(self).entries(), id@).live()
                    &&& final(self).entries() == batch_deleted_at(old(self).entries(), id@, now)
                },
                Err(e) => {
                    &&& final(self).entries() == old(self).entries()
                    &&& e == if !has_batch(old(self).entries(), id@) {
                        TrackerError::BatchNotFound
                    } else {
                        TrackerError::BatchAlreadyDeleted
                    }
                    &&& has_batch(old(self).entries(), id@) ==> !batch_at(old(self).entries(), id@).live()
                },
            },
    ;

    /// Gives the batch a new name and description and the current time as
    /// its time of update: `update_at` with what the clock says.
    fn update(&mut self, id: &str, name: String, description: Option<String>) -> (r: Result<(), TrackerError>)
        requires
            batches_wf(old(self).entries()),
        ensures
            batches_wf(final(self).entries()),
            match r {
                Ok(()) => batch_renamed(old(self).entries(), final(self).entries(), id@, name@, opt_text(description)),
                Err(e) => {
                    &&& e == TrackerError::BatchNotFound
                    &&& !has_batch(old(self).entries(), id@)
                    &&& final(self).entries() == old(self).entries()
                },
            },
    ;

    /// Soft-deletes a live batch at the current time: `delete_at` with what
    /// the clock says.
    fn delete(&mut self, id: &str) -> (r: Result<(), TrackerError>)
        requires
            batches_wf(old(self).entries()),
        ensures
            batches_wf(final(self).entries()),
            match r {
                Ok(()) => batch_deleted(old(self).entries(), final(self).entries(), id@),
                Err(e) => {
                    &&& final(self).entries() == old(self).entries()
                    &&& e == if !has_batch(old(self).entries(), id@) {
                        TrackerError::BatchNotFound
                    } else {
                        TrackerError::BatchAlreadyDeleted
                    }
                    &&& has_batch(old(self).entries(), id@) ==> !batch_at(old(self).entries(), id@).live()
                },
            },
    ;
}

/// With distinct identities, the record at a position is the one that its
/// identity finds.
pub proof fn lemma_weight_index(entries: Seq<WeightView>, key: WeightKeyView, i: int)
    requires
        weights_wf(entries),
        0 <= i < entries.len(),
        entries[i].key() == key,
    ensures
        has_weight(entries, key),
        weight_index(entries, key) == i,
{
}

/// With distinct identifiers, the batch at a position is the one that its
/// identifier finds.
pub proof fn lemma_batch_index(entries: Seq<BatchView>, id: Seq<char>, i: int)
    requires
        batches_wf(entries),
        0 <= i < entries.len(),
        entries[i].id == id,
    ensures
        has_batch(entries, id),
        batch_index(entries, id) == i,
{
}

/// Storing a record keeps identities distinct.
pub proof fn lemma_put_weight_wf(entries: Seq<WeightView>, weight: WeightView)
    requires
        weights_wf(entries),
    ensures
        weights_wf(put_weight(entries, weight)),
{
}

/// Storing a batch keeps identifiers distinct.
pub proof fn lemma_put_batch_wf(entries: Seq<BatchView>, batch: BatchView)
    requires
        batches_wf(entries),
    ensures
        batches_wf(put_batch(entries, batch)),
{
}

/// The records after each of `items` is stored in turn.
pub open spec fn put_weights(entries: Seq<WeightView>, items: Seq<WeightView>) -> Seq<WeightView>
    decreases items.len(),
{
    if items.len() == 0 {
        entries
    } else {
        put_weight(put_weights(entries, items.drop_last()), items.last())
    }
}

/// The batches after each of `items` is stored in turn.
pub open spec fn put_batches(entries: Seq<BatchView>, items: Seq<BatchView>) -> Seq<BatchView>
    decreases items.len(),
{
    if items.len() == 0 {
        entries
    } else {
        put_batch(put_batches(entries, items.drop_last()), items.last())
    }
}

/// Whether `accessor` may work on what `owner` owns: always when the two are
/// one principal; else when the owner has shared the given batch with the
/// accessor or, where no batch is named, any batch at all.
pub open spec fn access_allowed(
    grants: Set<Grant>,
    owner: Seq<u8>,
    accessor: Seq<u8>,
    batch_id: Option<Seq<char>>,
) -> bool {
    owner == accessor || match batch_id {
        Some(id) => grants.contains(Grant { owner, collaborator: accessor, batch_id: id }),
        None => is_collaborator(grants, owner, accessor),
    }
}

/// The owner has shared some batch with the collaborator.
pub open spec fn is_collaborator(grants: Set<Grant>, owner: Seq<u8>, collaborator: Seq<u8>) -> bool {
    exists|id: Seq<char>| #[trigger] grants.contains(Grant { owner, collaborator, batch_id: id })
}

/// The owner has shared some batch with somebody.
pub open spec fn shares_anything(grants: Set<Grant>, owner: Seq<u8>) -> bool {
    exists|g: Grant| #[trigger] grants.contains(g) && g.owner == owner
}

/// The grants without those from the owner to the collaborator.
pub open spec fn without_collaborator(grants: Set<Grant>, owner: Seq<u8>, collaborator: Seq<u8>) -> Set<Grant> {
    grants.filter(|g: Grant| !(g.owner == owner && g.collaborator == collaborator))
}

/// The views of a sequence of principals.
pub open spec fn principal_views(principals: Seq<Principal>) -> Seq<Seq<u8>> {
    principals.map_values(|p: Principal| p@)
}

/// The store of sharing grants.
pub trait AccessControl {
    /// The grants in force.
    spec fn grants(&self) -> Set<Grant>;

    /// The store's own invariant.
    spec fn wf(&self) -> bool;

    /// Whether `accessor` may work on what `data_owner` owns.
    fn has_access(&self, data_owner: Principal, accessor: Principal, batch_id: Option<&str>) -> (r: bool)
        requires
            self.wf(),
        ensures
            r == access_allowed(self.grants(), data_owner@, accessor@, opt_str(batch_id)),
    ;

    /// Grants the collaborator access to one batch of the owner. Granting
    /// twice is the same as granting once. Always succeeds.
    fn share_access(&mut self, owner: Principal, collaborator: Principal, batch_id: String) -> (r: Result<
        (),
        TrackerError,
    >)
        requires
            old(self).wf(),
        ensures
            final(self).wf(),
            r is Ok,
            final(self).grants() == old(self).grants().insert(
                Grant { owner: owner@, collaborator: collaborator@, batch_id: batch_id@ },
            ),
    ;

    /// Takes back every grant from the owner to the collaborator. Fails when
    /// the owner has shared nothing with anybody.
    fn remove_access(&mut self, owner: Principal, collaborator: Principal) -> (r: Result<(), TrackerError>)
        requires
            old(self).wf(),
        ensures
            final(self).wf(),
            match r {
                Ok(()) => {
                    &&& shares_anything(old(self).grants(), owner@)
                    &&& final(self).grants() == without_collaborator(old(self).grants(), owner@, collaborator@)
                },
                Err(e) => {
                    &&& e == TrackerError::NoSharingFound
                    &&& !shares_anything(old(self).grants(), owner@)
                    &&& final(self).grants() == old(self).grants()
                },
            },
    ;

    /// The principals with whom the owner has shared a batch, each once.
    fn get_collaborators(&self, owner: Principal) -> (r: Vec<Principal>)
        requires
            self.wf(),
        ensures
            principal_views(r@).no_duplicates(),
            forall|c: Seq<u8>| #[trigger]
                principal_views(r@).contains(c) <==> is_collaborator(self.grants(), owner@, c),
    ;
}

} // verus!
