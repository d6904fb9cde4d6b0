//! The services: the rules on who may create, read, change or delete a
//! weight or a batch, and on how access is shared.
//!
//! A service owns the stores it works on. Every operation resolves the owner
//! of the record in question, asks the sharing store whether the caller may
//! proceed, and only then reads or changes a store. An operation that fails
//! leaves every store as it was.
//!
//! The stores write the time into the records that they change. Each
//! operation that changes a record comes in two forms: one that takes the
//! time and says exactly what is written, its name ending in `_at`, and one
//! that lets the clock say the time.

use vstd::prelude::*;
use crate::errors::TrackerError;
use crate::models::{
    batch_views, opt_text, weight_views, Batch, BatchDetailsView, BatchStats, BatchView,
    BatchWithStats, BatchWithStatsView, CreateBatchRequest, CreateWeightRequest,
    CreateWeightRequestView, Grant, ShareableBatch, ShareableBatchView, UpdateBatchRequest, Weight,
    WeightKey, WeightView,
};
use crate::principal::{anonymous_bytes, Principal};
use crate::sequences::{
    lemma_filter_all, lemma_filter_holds, lemma_filter_next, lemma_map_push, lemma_take_all,
    lemma_take_next,
};
use crate::text::{blank, decimal, is_blank, push_decimal};
use crate::traits::{
    access_allowed, batch_at, batch_deleted, batch_deleted_at, batch_renamed, batch_renamed_at,
    batches_wf, has_batch, is_collaborator, lemma_weight_index, principal_views, put_batch,
    put_weight, select_batches, select_weights, weight_selected, weights_wf,
    without_collaborator, AccessControl, BatchRepository, TimeProvider, WeightRepository,
};
use crate::value::WeightValue;

verus! {

/// Why a request to record a weight is refused, if it is. The checks are made
/// in this order and the first that fails decides.
pub open spec fn create_weight_refusal(
    batches: Seq<BatchView>,
    grants: Set<Grant>,
    request: CreateWeightRequestView,
    caller: Seq<u8>,
) -> Option<TrackerError> {
    if !request.weight.positive() {
        Some(TrackerError::InvalidValue)
    } else if !request.weight.within_limit() {
        Some(TrackerError::OutOfRange)
    } else if blank(request.item_id) {
        Some(TrackerError::EmptyItemId)
    } else if !has_batch(batches, request.batch_id) {
        Some(TrackerError::InvalidBatchId)
    } else if !access_allowed(grants, batch_at(batches, request.batch_id).owner, caller, Some(request.batch_id)) {
        Some(TrackerError::CannotAddWeights)
    } else {
        None
    }
}

/// The record that a request creates at time `now`. Its owner is the owner
/// of the batch, whoever the caller is.
pub open spec fn new_weight(batches: Seq<BatchView>, request: CreateWeightRequestView, now: u64) -> WeightView {
    WeightView {
        owner: batch_at(batches, request.batch_id).owner,
        batch_id: request.batch_id,
        item_id: request.item_id,
        weight: request.weight,
        created_at: now,
        updated_at: now,
        deleted_at: None,
    }
}

/// The records that the caller may see among those that a listing shows.
pub open spec fn visible_weights(
    weights: Seq<WeightView>,
    grants: Set<Grant>,
    batch_id: Option<Seq<char>>,
    include_deleted: bool,
    caller: Seq<u8>,
) -> Seq<WeightView> {
    select_weights(weights, batch_id, include_deleted).filter(
        |w: WeightView| access_allowed(grants, w.owner, caller, Some(w.batch_id)),
    )
}

/// The record is for the item and was created at the given time.
pub open spec fn names_record(weight: WeightView, item_id: Seq<char>, created_at: u64) -> bool {
    weight.item_id == item_id && weight.created_at == created_at
}

/// Some record, live or deleted, of whatever owner, is for the item and was
/// created at the given time.
pub open spec fn has_record(entries: Seq<WeightView>, item_id: Seq<char>, created_at: u64) -> bool {
    exists|i: int| 0 <= i < entries.len() && names_record(#[trigger] entries[i], item_id, created_at)
}

/// The record at `i` is the first for the item and the time.
pub open spec fn is_first_record(entries: Seq<WeightView>, item_id: Seq<char>, created_at: u64, i: int) -> bool {
    &&& 0 <= i < entries.len()
    &&& names_record(entries[i], item_id, created_at)
    &&& forall|j: int| 0 <= j < i ==> !names_record(#[trigger] entries[j], item_id, created_at)
}

/// The position of the first record for the item and the time.
pub open spec fn first_record(entries: Seq<WeightView>, item_id: Seq<char>, created_at: u64) -> int {
    choose|i: int| is_first_record(entries, item_id, created_at, i)
}

/// Before a record for the item and the time there is a first one.
proof fn lemma_first_record_before(entries: Seq<WeightView>, item_id: Seq<char>, created_at: u64, k: int) -> (i: int)
    requires
        0 <= k < entries.len(),
        names_record(entries[k], item_id, created_at),
    ensures
        is_first_record(entries, item_id, created_at, i),
    decreases k,
{
    if exists|j: int| 0 <= j < k && names_record(#[trigger] entries[j], item_id, created_at) {
        let j = choose|j: int| 0 <= j < k && names_record(#[trigger] entries[j], item_id, created_at);
        lemma_first_record_before(entries, item_id, created_at, j)
    } else {
        k
    }
}

/// Where some record is for the item and the time, `first_record` is the
/// position of the first of them.
pub proof fn lemma_first_record_exists(entries: Seq<WeightView>, item_id: Seq<char>, created_at: u64)
    requires
        has_record(entries, item_id, created_at),
    ensures
        is_first_record(entries, item_id, created_at, first_record(entries, item_id, created_at)),
{
    let k = choose|k: int| 0 <= k < entries.len() && names_record(#[trigger] entries[k], item_id, created_at);
    lemma_first_record_before(entries, item_id, created_at, k);
}

/// There is one first record only.
pub proof fn lemma_first_record(entries: Seq<WeightView>, item_id: Seq<char>, created_at: u64, i: int)
    requires
        is_first_record(entries, item_id, created_at, i),
    ensures
        has_record(entries, item_id, created_at),
        first_record(entries, item_id, created_at) == i,
{
}

/// Why an update of a weight is refused, if it is.
pub open spec fn update_weight_refusal(
    weights: Seq<WeightView>,
    grants: Set<Grant>,
    item_id: Seq<char>,
    created_at: u64,
    caller: Seq<u8>,
) -> Option<TrackerError> {
    let record = weights[first_record(weights, item_id, created_at)];
    if !has_record(weights, item_id, created_at) {
        Some(TrackerError::WeightNotFound)
    } else if !record.live() {
        Some(TrackerError::WeightDeleted)
    } else if !access_allowed(grants, record.owner, caller, Some(record.batch_id)) {
        Some(TrackerError::CannotUpdateWeight)
    } else {
        None
    }
}

/// Why a deletion of a weight is refused, if it is. A record that is deleted
/// already may be deleted again.
pub open spec fn delete_weight_refusal(
    weights: Seq<WeightView>,
    grants: Set<Grant>,
    item_id: Seq<char>,
    created_at: u64,
    caller: Seq<u8>,
) -> Option<TrackerError> {
    let record = weights[first_record(weights, item_id, created_at)];
    if !has_record(weights, item_id, created_at) {
        Some(TrackerError::WeightNotFound)
    } else if !access_allowed(grants, record.owner, caller, Some(record.batch_id)) {
        Some(TrackerError::CannotDeleteWeight)
    } else {
        None
    }
}

/// The records once the record at `i` has the new value, as updated at
/// `now`.
pub open spec fn record_updated_at(before: Seq<WeightView>, i: int, value: WeightValue, now: u64) -> Seq<WeightView> {
    before.update(i, before[i].with_value(value, now))
}

/// The records once the record at `i` is soft-deleted at `now`.
pub open spec fn record_deleted_at(before: Seq<WeightView>, i: int, now: u64) -> Seq<WeightView> {
    before.update(i, before[i].deleted(now))
}

/// `after` is `before` but for the record at `i`, which has the new value
/// and whatever time of update the clock gave.
pub open spec fn record_updated(before: Seq<WeightView>, after: Seq<WeightView>, i: int, value: WeightValue) -> bool {
    &&& after.len() == before.len()
    &&& after == record_updated_at(before, i, value, after[i].updated_at)
}

/// `after` is `before` but for the record at `i`, which is soft-deleted at
/// whatever time the clock gave.
pub open spec fn record_deleted(before: Seq<WeightView>, after: Seq<WeightView>, i: int) -> bool {
    &&& after.len() == before.len()
    &&& after[i].deleted_at is Some
    &&& after == record_deleted_at(before, i, after[i].deleted_at.unwrap())
}

/// The position of the first record for the item and the time.
fn find_record(weights: &Vec<Weight>, item_id: &String, created_at: u64) -> (r: Option<usize>)
    ensures
        match r {
            Some(i) => is_first_record(weight_views(weights@), item_id@, created_at, i as int),
            None => !has_record(weight_views(weights@), item_id@, created_at),
        },
{
    let mut i: usize = 0;
    while i < weights.len()
        invariant
            i <= weights.len(),
            forall|j: int| 0 <= j < i ==> !names_record(#[trigger] weight_views(weights@)[j], item_id@, created_at),
        decreases weights.len() - i,
    {
        if weights[i].item_id == *item_id && weights[i].created_at == created_at {
            return Some(i);
        }
        i += 1;
    }
    None
}

/// Creates, lists, updates and deletes weights on behalf of a caller.
pub struct WeightService<T: WeightRepository, B: BatchRepository, A: AccessControl, TP: TimeProvider> {
    weight_repo: T,
    batch_repo: B,
    access_control: A,
    time_provider: TP,
}

impl<T: WeightRepository, B: BatchRepository, A: AccessControl, TP: TimeProvider> WeightService<T, B, A, TP> {
    /// The weight records.
    pub closed spec fn weights(&self) -> Seq<WeightView> {
        self.weight_repo.entries()
    }

    /// The batches.
    pub closed spec fn batches(&self) -> Seq<BatchView> {
        self.batch_repo.entries()
    }

    /// The sharing grants.
    pub closed spec fn grants(&self) -> Set<Grant> {
        self.access_control.grants()
    }

    /// The sharing store is in order.
    pub closed spec fn access_wf(&self) -> bool {
        self.access_control.wf()
    }

    /// The stores are in order.
    pub open spec fn wf(&self) -> bool {
        &&& weights_wf(self.weights())
        &&& batches_wf(self.batches())
        &&& self.access_wf()
    }

    /// A service on the given stores and clock.
    pub fn new(weight_repo: T, batch_repo: B, access_control: A, time_provider: TP) -> (s: Self)
        requires
            weights_wf(weight_repo.entries()),
            batches_wf(batch_repo.entries()),
            access_control.wf(),
        ensures
            s.wf(),
            s.weights() == weight_repo.entries(),
            s.batches() == batch_repo.entries(),
            s.grants() == access_control.grants(),
    {
        WeightService { weight_repo, batch_repo, access_control, time_provider }
    }

    /// Hands the stores and the clock back.
    pub fn into_parts(self) -> (parts: (T, B, A, TP))
        requires
            self.wf(),
        ensures
            parts.0.entries() == self.weights(),
            parts.1.entries() == self.batches(),
            parts.2.grants() == self.grants(),
            weights_wf(parts.0.entries()),
            batches_wf(parts.1.entries()),
            parts.2.wf(),
    {
        (self.weight_repo, self.batch_repo, self.access_control, self.time_provider)
    }

    /// Records a weight as created at `now`.
    ///
    /// The request is refused as `create_weight_refusal` says. Otherwise the
    /// record is stored under its identity, owned by the owner of the batch.
    pub fn create_weight_at(&mut self, request: CreateWeightRequest, caller: Principal, now: u64) -> (r: Result<
        String,
        TrackerError,
    >)
        requires
            old(self).wf(),
        ensures
            final(self).wf(),
            final(self).batches() == old(self).batches(),
            final(self).grants() == old(self).grants(),
            match create_weight_refusal(old(self).batches(), old(self).grants(), request@, caller@) {
                Some(e) => r == Err::<String, TrackerError>(e) && final(self).weights() == old(self).weights(),
                None => {
                    &&& r matches Ok(text) && text@ == "Weight created successfully"@
                    &&& final(self).weights() == put_weight(
                        old(self).weights(),
                        new_weight(old(self).batches(), request@, now),
                    )
                },
            },
    {
        if !request.weight.is_positive() {
            return Err(TrackerError::InvalidValue);
        }
        if !request.weight.is_within_limit() {
            return Err(TrackerError::OutOfRange);
        }
        if is_blank(request.item_id.as_str()) {
            return Err(TrackerError::EmptyItemId);
        }
        let batch = match self.batch_repo.get(request.batch_id.as_str()) {
            Some(b) => b,
            None => {
                return Err(TrackerError::InvalidBatchId);
            },
        };
        if !self.access_control.has_access(batch.owner, caller, Some(request.batch_id.as_str())) {
            return Err(TrackerError::CannotAddWeights);
        }
        let weight_key = WeightKey { owner: batch.owner, item_id: request.item_id.clone(), created_at: now };
        let weight_entry = Weight {
            owner: batch.owner,
            batch_id: request.batch_id,
            item_id: request.item_id,
            weight: request.weight,
            created_at: now,
            updated_at: now,
            deleted_at: None,
        };
        match self.weight_repo.create(weight_key, weight_entry) {
            Ok(_) => Ok("Weight created successfully".to_string()),
            Err(e) => Err(e),
        }
    }

    /// Records a weight as created at the current time.
    pub fn create_weight(&mut self, request: CreateWeightRequest, caller: Principal) -> (r: Result<
        String,
        TrackerError,
    >)
        requires
            old(self).wf(),
        ensures
            final(self).wf(),
            final(self).batches() == old(self).batches(),
            final(self).grants() == old(self).grants(),
            match create_weight_refusal(old(self).batches(), old(self).grants(), request@, caller@) {
                Some(e) => r == Err::<String, TrackerError>(e) && final(self).weights() == old(self).weights(),
                None => {
                    &&& r matches Ok(text) && text@ == "Weight created successfully"@
                    &&& exists|now: u64|
                        final(self).weights() == put_weight(
                            old(self).weights(),
                            #[trigger] new_weight(old(self).batches(), request@, now),
                        )
                },
            },
    {
        let now = self.time_provider.get_time();
        self.create_weight_at(request, caller, now)
    }

    /// The records of one batch, or of all batches, that the caller may see:
    /// those of batches that the caller owns or that are shared with the
    /// caller. A caller without access gets an empty list.
    pub fn get_weights(&self, batch_id: Option<String>, include_deleted: bool, caller: Principal) -> (r: Vec<
        Weight,
    >)
        requires
            self.wf(),
        ensures
            weight_views(r@) == visible_weights(
                self.weights(),
                self.grants(),
                opt_text(batch_id),
                include_deleted,
                caller@,
            ),
    {
        let listed = self.weight_repo.get_all(batch_id, include_deleted);
        let ghost shown = weight_views(listed@);
        let ghost grants = self.grants();
        let ghost may_see = |w: WeightView| access_allowed(grants, w.owner, caller@, Some(w.batch_id));
        let mut out: Vec<Weight> = Vec::new();
        let mut i: usize = 0;
        assert(shown.take(0).filter(may_see) =~= Seq::<WeightView>::empty()) by {
            reveal(Seq::filter);
        }
        while i < listed.len()
            invariant
                i <= listed.len(),
                self.wf(),
                shown == weight_views(listed@),
                grants == self.grants(),
                may_see == |w: WeightView| access_allowed(grants, w.owner, caller@, Some(w.batch_id)),
                weight_views(out@) == shown.take(i as int).filter(may_see),
            decreases listed.len() - i,
        {
            let w = &listed[i];
            proof {
                lemma_filter_next(shown, i as int, may_see);
            }
            if self.access_control.has_access(w.owner, caller, Some(w.batch_id.as_str())) {
                out.push(w.clone());
            }
            i += 1;
        }
        proof {
            lemma_take_all(shown);
        }
        out
    }

    /// Gives the first record for the item and the time a new value, as
    /// updated at `now`.
    ///
    /// Refused as `update_weight_refusal` says. The new value is not held to
    /// the range that a new record's value must be in.
    pub fn update_weight_at(
        &mut self,
        item_id: String,
        created_at: u64,
        weight: WeightValue,
        caller: Principal,
        now: u64,
    ) -> (r: Result<String, TrackerError>)
        requires
            old(self).wf(),
        ensures
            final(self).wf(),
            final(self).batches() == old(self).batches(),
            final(self).grants() == old(self).grants(),
            match update_weight_refusal(old(self).weights(), old(self).grants(), item_id@, created_at, caller@) {
                Some(e) => r == Err::<String, TrackerError>(e) && final(self).weights() == old(self).weights(),
                None => {
                    &&& r matches Ok(text) && text@ == "Weight updated successfully"@
                    &&& final(self).weights() == record_updated_at(
                        old(self).weights(),
                        first_record(old(self).weights(), item_id@, created_at),
                        weight,
                        now,
                    )
                },
            },
    {
        let weights = self.weight_repo.get_all(None, true);
        proof {
            lemma_filter_all(self.weights(), |w: WeightView| weight_selected(w, None, true));
        }
        let i = match find_record(&weights, &item_id, created_at) {
            Some(i) => i,
            None => {
                return Err(TrackerError::WeightNotFound);
            },
        };
        proof {
            lemma_first_record(self.weights(), item_id@, created_at, i as int);
        }
        let entry = &weights[i];
        if entry.deleted_at.is_some() {
            return Err(TrackerError::WeightDeleted);
        }
        if !self.access_control.has_access(entry.owner, caller, Some(entry.batch_id.as_str())) {
            return Err(TrackerError::CannotUpdateWeight);
        }
        let key = WeightKey { owner: entry.owner, item_id, created_at };
        proof {
            lemma_weight_index(self.weights(), key@, i as int);
        }
        match self.weight_repo.update_at(key, weight, now) {
            Ok(()) => Ok("Weight updated successfully".to_string()),
            Err(e) => Err(e),
        }
    }

    /// Gives the first record for the item and the time a new value, as
    /// updated at the current time: `update_weight_at` with what the clock
    /// says.
    pub fn update_weight(&mut self, item_id: String, created_at: u64, weight: WeightValue, caller: Principal) -> (r:
        Result<String, TrackerError>)
        requires
            old(self).wf(),
        ensures
            final(self).wf(),
            final(self).batches() == old(self).batches(),
            final(self).grants() == old(self).grants(),
            match update_weight_refusal(old(self).weights(), old(self).grants(), item_id@, created_at, caller@) {
                Some(e) => r == Err::<String, TrackerError>(e) && final(self).weights() == old(self).weights(),
                None => {
                    &&& r matches Ok(text) && text@ == "Weight updated successfully"@
                    &&& record_updated(
                        old(self).weights(),
                        final(self).weights(),
                        first_record(old(self).weights(), item_id@, created_at),
                        weight,
                    )
                },
            },
    {
        proof {
            if has_record(self.weights(), item_id@, created_at) {
                lemma_first_record_exists(self.weights(), item_id@, created_at);
            }
        }
        let now = self.time_provider.get_time();
        self.update_weight_at(item_id, created_at, weight, caller, now)
    }

    /// Soft-deletes the first record for the item and the time at `now`.
    ///
    /// Refused as `delete_weight_refusal` says. Deleting a deleted record
    /// again succeeds and sets the time of deletion anew.
    pub fn delete_weight_at(&mut self, item_id: String, created_at: u64, caller: Principal, now: u64) -> (r: Result<
        String,
        TrackerError,
    >)
        requires
            old(self).wf(),
        ensures
            final(self).wf(),
            final(self).batches() == old(self).batches(),
            final(self).grants() == old(self).grants(),
            match delete_weight_refusal(old(self).weights(), old(self).grants(), item_id@, created_at, caller@) {
                Some(e) => r == Err::<String, TrackerError>(e) && final(self).weights() == old(self).weights(),
                None => {
                    &&& r matches Ok(text) && text@ == "Weight deleted successfully"@
                    &&& final(self).weights() == record_deleted_at(
                        old(self).weights(),
                        first_record(old(self).weights(), item_id@, created_at),
                        now,
                    )
                },
            },
    {
        let weights = self.weight_repo.get_all(None, true);
        proof {
            lemma_filter_all(self.weights(), |w: WeightView| weight_selected(w, None, true));
        }
        let i = match find_record(&weights, &item_id, created_at) {
            Some(i) => i,
            None => {
                return Err(TrackerError::WeightNotFound);
            },
        };
        proof {
            lemma_first_record(self.weights(), item_id@, created_at, i as int);
        }
        let entry = &weights[i];
        if !self.access_control.has_access(entry.owner, caller, Some(entry.batch_id.as_str())) {
            return Err(TrackerError::CannotDeleteWeight);
        }
        let key = WeightKey { owner: entry.owner, item_id, created_at };
        proof {
            lemma_weight_index(self.weights(), key@, i as int);
        }
        match self.weight_repo.delete_at(key, now) {
            Ok(()) => Ok("Weight deleted successfully".to_string()),
            Err(e) => Err(e),
        }
    }

    /// Soft-deletes the first record for the item and the time at the
    /// current time: `delete_weight_at` with what the clock says.
    pub fn delete_weight(&mut self, item_id: String, created_at: u64, caller: Principal) -> (r: Result<
        String,
        TrackerError,
    >)
        requires
            old(self).wf(),
        ensures
            final(self).wf(),
            final(self).batches() == old(self).batches(),
            final(self).grants() == old(self).grants(),
            match delete_weight_refusal(old(self).weights(), old(self).grants(), item_id@, created_at, caller@) {
                Some(e) => r == Err::<String, TrackerError>(e) && final(self).weights() == old(self).weights(),
                None => {
                    &&& r matches Ok(text) && text@ == "Weight deleted successfully"@
                    &&& record_deleted(
                        old(self).weights(),
                        final(self).weights(),
                        first_record(old(self).weights(), item_id@, created_at),
                    )
                },
            },
    {
        proof {
            if has_record(self.weights(), item_id@, created_at) {
                lemma_first_record_exists(self.weights(), item_id@, created_at);
            }
        }
        let now = self.time_provider.get_time();
        self.delete_weight_at(item_id, created_at, caller, now)
    }
}

/// The values of the live weights of a batch, in store order.
pub open spec fn live_weight_values(weights: Seq<WeightView>, batch_id: Seq<char>) -> Seq<WeightValue> {
    select_weights(weights, Some(batch_id), false).map_values(|w: WeightView| w.weight)
}

/// The statistics of a batch: all zero for a batch that is soft-deleted or
/// has no live weight, else count, minimum and maximum of the values of its
/// live weights. An identifier that no batch has is treated as a live batch.
pub open spec fn stats_for(batches: Seq<BatchView>, weights: Seq<WeightView>, batch_id: Seq<char>) -> BatchStats {
    if has_batch(batches, batch_id) && !batch_at(batches, batch_id).live() {
        BatchStats::zeroed()
    } else {
        BatchStats::of(live_weight_values(weights, batch_id))
    }
}

/// A batch with its statistics.
pub open spec fn with_stats(batches: Seq<BatchView>, weights: Seq<WeightView>, batch: BatchView) -> BatchWithStatsView {
    BatchWithStatsView { batch, stats: stats_for(batches, weights, batch.id) }
}

/// The live batches of an owner, in store order.
pub open spec fn owned_live(batches: Seq<BatchView>, owner: Seq<u8>) -> Seq<BatchView> {
    select_batches(batches, false).filter(|b: BatchView| b.owner == owner)
}

/// The live batches of an owner, each with its statistics.
pub open spec fn owned_batches(batches: Seq<BatchView>, weights: Seq<WeightView>, owner: Seq<u8>) -> Seq<
    BatchWithStatsView,
> {
    owned_live(batches, owner).map_values(|b: BatchView| with_stats(batches, weights, b))
}

/// Identifier and name of each live batch of an owner that has a live
/// weight.
pub open spec fn shareable_batches(batches: Seq<BatchView>, weights: Seq<WeightView>, owner: Seq<u8>) -> Seq<
    ShareableBatchView,
> {
    owned_live(batches, owner).filter(|b: BatchView| stats_for(batches, weights, b.id).count > 0).map_values(
        |b: BatchView| (ShareableBatchView { id: b.id, name: b.name }),
    )
}

/// The batches that a caller may see, each with its statistics.
pub open spec fn visible_batches(
    batches: Seq<BatchView>,
    weights: Seq<WeightView>,
    grants: Set<Grant>,
    include_deleted: bool,
    caller: Seq<u8>,
) -> Seq<BatchWithStatsView> {
    select_batches(batches, include_deleted).filter(
        |b: BatchView| access_allowed(grants, b.owner, caller, Some(b.id)),
    ).map_values(|b: BatchView| with_stats(batches, weights, b))
}

/// The views of a sequence of batches with statistics.
pub open spec fn with_stats_views(items: Seq<BatchWithStats>) -> Seq<BatchWithStatsView> {
    items.map_values(|x: BatchWithStats| x@)
}

/// The views of a sequence of shareable batches.
pub open spec fn shareable_views(items: Seq<ShareableBatch>) -> Seq<ShareableBatchView> {
    items.map_values(|x: ShareableBatch| x@)
}

/// The identifier of a batch created at `now`: the prefix `batch_` and the
/// decimal numeral of the time.
pub open spec fn batch_id_at(now: u64) -> Seq<char> {
    "batch_"@ + decimal(now as nat)
}

/// The batch that a request creates at time `now`.
pub open spec fn new_batch(request: BatchDetailsView, owner: Seq<u8>, now: u64) -> BatchView {
    BatchView {
        id: batch_id_at(now),
        name: request.name,
        owner,
        description: request.description,
        created_at: now,
        updated_at: now,
        deleted_at: None,
    }
}

/// Why a caller may not read a batch, if so.
pub open spec fn get_batch_refusal(batches: Seq<BatchView>, grants: Set<Grant>, batch_id: Seq<char>, caller: Seq<u8>) -> Option<
    TrackerError,
> {
    if !has_batch(batches, batch_id) {
        Some(TrackerError::BatchNotFound)
    } else if !access_allowed(grants, batch_at(batches, batch_id).owner, caller, Some(batch_id)) {
        Some(TrackerError::CannotReadBatch)
    } else {
        None
    }
}

/// Why a caller may not rename a batch, if so. Sharing gives no right to
/// rename.
pub open spec fn update_batch_refusal(batches: Seq<BatchView>, batch_id: Seq<char>, caller: Seq<u8>) -> Option<
    TrackerError,
> {
    if !has_batch(batches, batch_id) {
        Some(TrackerError::BatchNotFound)
    } else if batch_at(batches, batch_id).owner != caller {
        Some(TrackerError::CannotUpdateBatch)
    } else {
        None
    }
}

/// Why a caller may not delete a batch, if so. Sharing gives no right to
/// delete, and a batch is deleted once only.
pub open spec fn delete_batch_refusal(batches: Seq<BatchView>, batch_id: Seq<char>, caller: Seq<u8>) -> Option<
    TrackerError,
> {
    if !has_batch(batches, batch_id) {
        Some(TrackerError::BatchNotFound)
    } else if batch_at(batches, batch_id).owner != caller {
        Some(TrackerError::CannotDeleteBatch)
    } else if !batch_at(batches, batch_id).live() {
        Some(TrackerError::BatchAlreadyDeleted)
    } else {
        None
    }
}

/// The record as the deletion of batch `batch_id` leaves it: soft-deleted,
/// at whatever time the clock gave, where it was a live record of the batch;
/// else as it was.
pub open spec fn cascaded(before: WeightView, after: WeightView, batch_id: Seq<char>) -> bool {
    if before.batch_id == batch_id && before.live() {
        after.deleted_at is Some && after == before.deleted(after.deleted_at.unwrap())
    } else {
        after == before
    }
}

/// Every record is as the deletion of batch `batch_id` leaves it.
pub open spec fn weights_cascaded(before: Seq<WeightView>, after: Seq<WeightView>, batch_id: Seq<char>) -> bool {
    &&& after.len() == before.len()
    &&& forall|i: int| 0 <= i < before.len() ==> cascaded(before[i], #[trigger] after[i], batch_id)
}

/// The records once the batch `batch_id` is deleted at `now`: its live
/// records are soft-deleted at `now` and every other record is as it was.
pub open spec fn weights_cascaded_at(before: Seq<WeightView>, batch_id: Seq<char>, now: u64) -> Seq<WeightView> {
    Seq::new(
        before.len(),
        |i: int|
            if before[i].batch_id == batch_id && before[i].live() {
                before[i].deleted(now)
            } else {
                before[i]
            },
    )
}

/// Some record among `done` has the identity of `weight`.
spec fn key_among(done: Seq<WeightView>, weight: WeightView) -> bool {
    exists|t: int| 0 <= t < done.len() && (#[trigger] done[t]).key() == weight.key()
}

/// The state of a cascade in which the records of `done` have been deleted
/// at `now`.
spec fn cascade_progress(before: Seq<WeightView>, current: Seq<WeightView>, done: Seq<WeightView>, now: u64) -> bool {
    &&& current.len() == before.len()
    &&& forall|i: int|
        0 <= i < before.len() ==> #[trigger] current[i] == if key_among(done, before[i]) {
            before[i].deleted(now)
        } else {
            before[i]
        }
}

/// The live batches of an owner, in store order.
fn list_owned<B: BatchRepository>(batch_repo: &B, owner: Principal) -> (r: Vec<Batch>)
    ensures
        batch_views(r@) == owned_live(batch_repo.entries(), owner@),
{
    let listed = batch_repo.get_all(false);
    let ghost shown = batch_views(listed@);
    let ghost owns = |b: BatchView| b.owner == owner@;
    let mut out: Vec<Batch> = Vec::new();
    let mut i: usize = 0;
    assert(shown.take(0).filter(owns) =~= Seq::<BatchView>::empty()) by {
        reveal(Seq::filter);
    }
    while i < listed.len()
        invariant
            i <= listed.len(),
            shown == batch_views(listed@),
            owns == |b: BatchView| b.owner == owner@,
            batch_views(out@) == shown.take(i as int).filter(owns),
        decreases listed.len() - i,
    {
        proof {
            lemma_filter_next(shown, i as int, owns);
        }
        if listed[i].owner == owner {
            out.push(listed[i].clone());
        }
        i += 1;
    }
    proof {
        lemma_take_all(shown);
    }
    out
}

/// Creates, lists, renames and deletes batches on behalf of a caller, and
/// derives the statistics of a batch from its live weights on every read.
pub struct BatchService<B: BatchRepository, W: WeightRepository, A: AccessControl, TP: TimeProvider> {
    batch_repo: B,
    weight_repo: W,
    access_control: A,
    time_provider: TP,
}

impl<B: BatchRepository, W: WeightRepository, A: AccessControl, TP: TimeProvider> BatchService<B, W, A, TP> {
    /// The weight records.
    pub closed spec fn weights(&self) -> Seq<WeightView> {
        self.weight_repo.entries()
    }

    /// The batches.
    pub closed spec fn batches(&self) -> Seq<BatchView> {
        self.batch_repo.entries()
    }

    /// The sharing grants.
    pub closed spec fn grants(&self) -> Set<Grant> {
        self.access_control.grants()
    }

    /// The sharing store is in order.
    pub closed spec fn access_wf(&self) -> bool {
        self.access_control.wf()
    }

    /// The stores are in order.
    pub open spec fn wf(&self) -> bool {
        &&& weights_wf(self.weights())
        &&& batches_wf(self.batches())
        &&& self.access_wf()
    }

    /// A service on the given stores and clock.
    pub fn new(batch_repo: B, weight_repo: W, access_control: A, time_provider: TP) -> (s: Self)
        requires
            weights_wf(weight_repo.entries()),
            batches_wf(batch_repo.entries()),
            access_control.wf(),
        ensures
            s.wf(),
            s.weights() == weight_repo.entries(),
            s.batches() == batch_repo.entries(),
            s.grants() == access_control.grants(),
    {
        BatchService { batch_repo, weight_repo, access_control, time_provider }
    }

    /// Hands the stores and the clock back.
    pub fn into_parts(self) -> (parts: (B, W, A, TP))
        requires
            self.wf(),
        ensures
            parts.0.entries() == self.batches(),
            parts.1.entries() == self.weights(),
            parts.2.grants() == self.grants(),
            batches_wf(parts.0.entries()),
            weights_wf(parts.1.entries()),
            parts.2.wf(),
    {
        (self.batch_repo, self.weight_repo, self.access_control, self.time_provider)
    }

    /// The values of the live weights of a batch, in store order.
    pub fn live_values(&self, batch_id: &str) -> (r: Vec<WeightValue>)
        requires
            self.wf(),
        ensures
            r@ == live_weight_values(self.weights(), batch_id@),
    {
        let listed = self.weight_repo.get_all(Some(batch_id.to_owned()), false);
        let ghost shown = weight_views(listed@);
        let ghost value = |w: WeightView| w.weight;
        let mut out: Vec<WeightValue> = Vec::new();
        let mut i: usize = 0;
        while i < listed.len()
            invariant
                i <= listed.len(),
                shown == weight_views(listed@),
                value == |w: WeightView| w.weight,
                out@ == shown.take(i as int).map_values(value),
            decreases listed.len() - i,
        {
            proof {
                lemma_take_next(shown, i as int);
                lemma_map_push(shown.take(i as int), shown[i as int], value);
            }
            out.push(listed[i].weight);
            i += 1;
        }
        proof {
            lemma_take_all(shown);
        }
        out
    }

    /// The statistics of a batch, derived from the stores as they are now.
    pub fn calculate_batch_stats(&self, batch_id: &str) -> (r: BatchStats)
        requires
            self.wf(),
        ensures
            r == stats_for(self.batches(), self.weights(), batch_id@),
            has_batch(self.batches(), batch_id@) && !batch_at(self.batches(), batch_id@).live() ==> r.count == 0,
            !(has_batch(self.batches(), batch_id@) && !batch_at(self.batches(), batch_id@).live()) ==> r.count
                == select_weights(self.weights(), Some(batch_id@), false).len(),
    {
        if let Some(batch) = self.batch_repo.get(batch_id) {
            if batch.deleted_at.is_some() {
                return BatchStats::empty();
            }
        }
        let values = self.live_values(batch_id);
        BatchStats::from_weights(values.as_slice())
    }

    /// Wraps each batch with its statistics.
    fn annotate(&self, listed: Vec<Batch>) -> (r: Vec<BatchWithStats>)
        requires
            self.wf(),
        ensures
            with_stats_views(r@) == batch_views(listed@).map_values(
                |b: BatchView| with_stats(self.batches(), self.weights(), b),
            ),
    {
        let ghost shown = batch_views(listed@);
        let ghost wrap = |b: BatchView| with_stats(self.batches(), self.weights(), b);
        let mut out: Vec<BatchWithStats> = Vec::new();
        let mut i: usize = 0;
        while i < listed.len()
            invariant
                i <= listed.len(),
                self.wf(),
                shown == batch_views(listed@),
                wrap == |b: BatchView| with_stats(self.batches(), self.weights(), b),
                with_stats_views(out@) == shown.take(i as int).map_values(wrap),
            decreases listed.len() - i,
        {
            let batch = listed[i].clone();
            let stats = self.calculate_batch_stats(batch.id.as_str());
            proof {
                lemma_take_next(shown, i as int);
                lemma_map_push(shown.take(i as int), shown[i as int], wrap);
            }
            let item = BatchWithStats { batch, stats };
            out.push(item);
            i += 1;
        }
        proof {
            lemma_take_all(shown);
        }
        out
    }

    /// The live batches of an owner, each with its statistics.
    pub fn get_owned_batches(&self, owner: Principal) -> (r: Vec<BatchWithStats>)
        requires
            self.wf(),
        ensures
            with_stats_views(r@) == owned_batches(self.batches(), self.weights(), owner@),
    {
        let owned = list_owned(&self.batch_repo, owner);
        self.annotate(owned)
    }

    /// Identifier and name of each live batch of an owner that has a live
    /// weight.
    pub fn get_shareable_batches(&self, owner: Principal) -> (r: Vec<ShareableBatch>)
        requires
            self.wf(),
        ensures
            shareable_views(r@) == shareable_batches(self.batches(), self.weights(), owner@),
    {
        let owned = list_owned(&self.batch_repo, owner);
        let ghost shown = batch_views(owned@);
        let ghost stocked = |b: BatchView| stats_for(self.batches(), self.weights(), b.id).count > 0;
        let ghost project = |b: BatchView| (ShareableBatchView { id: b.id, name: b.name });
        let mut out: Vec<ShareableBatch> = Vec::new();
        let mut i: usize = 0;
        assert(shown.take(0).filter(stocked) =~= Seq::<BatchView>::empty()) by {
            reveal(Seq::filter);
        }
        while i < owned.len()
            invariant
                i <= owned.len(),
                self.wf(),
                shown == batch_views(owned@),
                stocked == |b: BatchView| stats_for(self.batches(), self.weights(), b.id).count > 0,
                project == |b: BatchView| (ShareableBatchView { id: b.id, name: b.name }),
                shareable_views(out@) == shown.take(i as int).filter(stocked).map_values(project),
            decreases owned.len() - i,
        {
            let batch = &owned[i];
            let stats = self.calculate_batch_stats(batch.id.as_str());
            proof {
                lemma_filter_next(shown, i as int, stocked);
                lemma_map_push(shown.take(i as int).filter(stocked), shown[i as int], project);
            }
            if stats.count > 0 {
                let item = ShareableBatch { id: batch.id.clone(), name: batch.name.clone() };
                out.push(item);
            }
            i += 1;
        }
        proof {
            lemma_take_all(shown);
        }
        out
    }

    /// The owner of a batch.
    pub fn get_batch_owner(&self, batch_id: &str) -> (r: Result<Principal, TrackerError>)
        requires
            self.wf(),
        ensures
            match r {
                Ok(owner) => has_batch(self.batches(), batch_id@) && owner@ == batch_at(self.batches(), batch_id@).owner,
                Err(e) => e == TrackerError::BatchNotFound && !has_batch(self.batches(), batch_id@),
            },
    {
        match self.batch_repo.get(batch_id) {
            Some(batch) => Ok(batch.owner),
            None => Err(TrackerError::BatchNotFound),
        }
    }

    /// Creates a batch at time `now`, owned by `owner`.
    ///
    /// A blank name is refused. The identifier is made of the time alone: a
    /// batch created at the time of an earlier one takes its place.
    pub fn create_batch_at(&mut self, request: CreateBatchRequest, owner: Principal, now: u64) -> (r: Result<
        String,
        TrackerError,
    >)
        requires
            old(self).wf(),
        ensures
            final(self).wf(),
            final(self).weights() == old(self).weights(),
            final(self).grants() == old(self).grants(),
            if blank(request@.name) {
                r == Err::<String, TrackerError>(TrackerError::EmptyName) && final(self).batches() == old(
                    self,
                ).batches()
            } else {
                &&& r matches Ok(id) && id@ == batch_id_at(now)
                &&& final(self).batches() == put_batch(old(self).batches(), new_batch(request@, owner@, now))
            },
    {
        if is_blank(request.name.as_str()) {
            return Err(TrackerError::EmptyName);
        }
        let mut batch_id = "batch_".to_string();
        push_decimal(&mut batch_id, now);
        let batch = Batch {
            id: batch_id,
            name: request.name,
            owner,
            description: request.description,
            created_at: now,
            updated_at: now,
            deleted_at: None,
        };
        self.batch_repo.create(batch)
    }

    /// Creates a batch at the current time, owned by `owner`.
    pub fn create_batch(&mut self, request: CreateBatchRequest, owner: Principal) -> (r: Result<String, TrackerError>)
        requires
            old(self).wf(),
        ensures
            final(self).wf(),
            final(self).weights() == old(self).weights(),
            final(self).grants() == old(self).grants(),
            if blank(request@.name) {
                r == Err::<String, TrackerError>(TrackerError::EmptyName) && final(self).batches() == old(
                    self,
                ).batches()
            } else {
                exists|now: u64|
                    {
                        &&& r matches Ok(id) && id@ == #[trigger] batch_id_at(now)
                        &&& final(self).batches() == put_batch(
                            old(self).batches(),
                            new_batch(request@, owner@, now),
                        )
                    }
            },
    {
        let now = self.time_provider.get_time();
        self.create_batch_at(request, owner, now)
    }

    /// The batches that the caller owns or that are shared with the caller,
    /// each with its statistics.
    pub fn get_batches(&self, include_deleted: bool, caller: Principal) -> (r: Vec<BatchWithStats>)
        requires
            self.wf(),
        ensures
            with_stats_views(r@) == visible_batches(
                self.batches(),
                self.weights(),
                self.grants(),
                include_deleted,
                caller@,
            ),
    {
        let listed = self.batch_repo.get_all(include_deleted);
        let ghost shown = batch_views(listed@);
        let ghost grants = self.grants();
        let ghost may_see = |b: BatchView| access_allowed(grants, b.owner, caller@, Some(b.id));
        let mut seen: Vec<Batch> = Vec::new();
        let mut i: usize = 0;
        assert(shown.take(0).filter(may_see) =~= Seq::<BatchView>::empty()) by {
            reveal(Seq::filter);
        }
        while i < listed.len()
            invariant
                i <= listed.len(),
                self.wf(),
                shown == batch_views(listed@),
                grants == self.grants(),
                may_see == |b: BatchView| access_allowed(grants, b.owner, caller@, Some(b.id)),
                batch_views(seen@) == shown.take(i as int).filter(may_see),
            decreases listed.len() - i,
        {
            let b = &listed[i];
            proof {
                lemma_filter_next(shown, i as int, may_see);
            }
            if self.access_control.has_access(b.owner, caller, Some(b.id.as_str())) {
                seen.push(b.clone());
            }
            i += 1;
        }
        proof {
            lemma_take_all(shown);
        }
        self.annotate(seen)
    }

    /// A batch with its statistics, for its owner or a collaborator with
    /// whom it is shared.
    pub fn get_batch(&self, batch_id: &str, caller: Principal) -> (r: Result<BatchWithStats, TrackerError>)
        requires
            self.wf(),
        ensures
            match get_batch_refusal(self.batches(), self.grants(), batch_id@, caller@) {
                Some(e) => r == Err::<BatchWithStats, TrackerError>(e),
                None => r matches Ok(found) && found@ == with_stats(
                    self.batches(),
                    self.weights(),
                    batch_at(self.batches(), batch_id@),
                ),
            },
    {
        let batch = match self.batch_repo.get(batch_id) {
            Some(b) => b,
            None => {
                return Err(TrackerError::BatchNotFound);
            },
        };
        if !self.access_control.has_access(batch.owner, caller, Some(batch_id)) {
            return Err(TrackerError::CannotReadBatch);
        }
        let stats = self.calculate_batch_stats(batch_id);
        Ok(BatchWithStats { batch, stats })
    }

    /// Gives a batch a new name and description, as updated at `now`. Only
    /// the owner may.
    pub fn update_batch_at(&mut self, batch_id: &str, request: UpdateBatchRequest, caller: Principal, now: u64) -> (r:
        Result<(), TrackerError>)
        requires
            old(self).wf(),
        ensures
            final(self).wf(),
            final(self).weights() == old(self).weights(),
            final(self).grants() == old(self).grants(),
            match update_batch_refusal(old(self).batches(), batch_id@, caller@) {
                Some(e) => r == Err::<(), TrackerError>(e) && final(self).batches() == old(self).batches(),
                None => r is Ok && final(self).batches() == batch_renamed_at(
                    old(self).batches(),
                    batch_id@,
                    request@.name,
                    request@.description,
                    now,
                ),
            },
    {
        let batch = match self.batch_repo.get(batch_id) {
            Some(b) => b,
            None => {
                return Err(TrackerError::BatchNotFound);
            },
        };
        if batch.owner != caller {
            return Err(TrackerError::CannotUpdateBatch);
        }
        self.batch_repo.update_at(batch_id, request.name, request.description, now)
    }

    /// Gives a batch a new name and description, as updated at the current
    /// time: `update_batch_at` with what the clock says. Only the owner may.
    pub fn update_batch(&mut self, batch_id: &str, request: UpdateBatchRequest, caller: Principal) -> (r: Result<
        (),
        TrackerError,
    >)
        requires
            old(self).wf(),
        ensures
            final(self).wf(),
            final(self).weights() == old(self).weights(),
            final(self).grants() == old(self).grants(),
            match update_batch_refusal(old(self).batches(), batch_id@, caller@) {
                Some(e) => r == Err::<(), TrackerError>(e) && final(self).batches() == old(self).batches(),
                None => r is Ok && batch_renamed(
                    old(self).batches(),
                    final(self).batches(),
                    batch_id@,
                    request@.name,
                    request@.description,
                ),
            },
    {
        let now = self.time_provider.get_time();
        self.update_batch_at(batch_id, request, caller, now)
    }

    /// Soft-deletes a live batch and, with it, every live weight of the
    /// batch, all at `now`. Only the owner may.
    pub fn delete_batch_at(&mut self, batch_id: &str, caller: Principal, now: u64) -> (r: Result<(), TrackerError>)
        requires
            old(self).wf(),
        ensures
            final(self).wf(),
            final(self).grants() == old(self).grants(),
            match delete_batch_refusal(old(self).batches(), batch_id@, caller@) {
                Some(e) => {
                    &&& r == Err::<(), TrackerError>(e)
                    &&& final(self).batches() == old(self).batches()
                    &&& final(self).weights() == old(self).weights()
                },
                None => {
                    &&& r is Ok
                    &&& final(self).batches() == batch_deleted_at(old(self).batches(), batch_id@, now)
                    &&& final(self).weights() == weights_cascaded_at(old(self).weights(), batch_id@, now)
                },
            },
    {
        let batch = match self.batch_repo.get(batch_id) {
            Some(b) => b,
            None => {
                return Err(TrackerError::BatchNotFound);
            },
        };
        if batch.owner != caller {
            return Err(TrackerError::CannotDeleteBatch);
        }
        if batch.deleted_at.is_some() {
            return Err(TrackerError::BatchAlreadyDeleted);
        }
        match self.batch_repo.delete_at(batch_id, now) {
            Ok(()) => {},
            Err(e) => {
                return Err(e);
            },
        }
        let listed = self.weight_repo.get_all(Some(batch_id.to_owned()), false);
        let ghost before = old(self).weights();
        let ghost doomed = weight_views(listed@);
        let ghost in_batch = |w: WeightView| weight_selected(w, Some(batch_id@), false);
        let mut k: usize = 0;
        while k < listed.len()
            invariant
                k <= listed.len(),
                self.wf(),
                weights_wf(before),
                doomed == weight_views(listed@),
                in_batch == |w: WeightView| weight_selected(w, Some(batch_id@), false),
                doomed == before.filter(in_batch),
                cascade_progress(before, self.weights(), doomed.take(k as int), now),
                self.batches() == batch_deleted_at(old(self).batches(), batch_id@, now),
                self.grants() == old(self).grants(),
            decreases listed.len() - k,
        {
            let key = listed[k].key();
            let ghost current = self.weights();
            let ghost target = doomed[k as int];
            proof {
                lemma_filter_holds(before, in_batch, target);
                let at = choose|at: int| 0 <= at < before.len() && before[at] == target;
                lemma_weight_index(current, key@, at);
            }
            match self.weight_repo.delete_at(key, now) {
                Ok(()) => {},
                Err(e) => {
                    return Err(e);
                },
            }
            proof {
                let next = doomed.take(k + 1);
                lemma_take_next(doomed, k as int);
                assert(next[k as int] == target);
            }
            k += 1;
        }
        proof {
            lemma_take_all(doomed);
            let after = self.weights();
            let wanted = weights_cascaded_at(before, batch_id@, now);
            assert forall|i: int| 0 <= i < before.len() implies #[trigger] after[i] == wanted[i] by {
                lemma_filter_holds(before, in_batch, before[i]);
                if !in_batch(before[i]) && key_among(doomed, before[i]) {
                    let t = choose|t: int| 0 <= t < doomed.len() && (#[trigger] doomed[t]).key() == before[i].key();
                    lemma_filter_holds(before, in_batch, doomed[t]);
                }
            }
            assert(after =~= wanted);
        }
        Ok(())
    }

    /// Soft-deletes a live batch and, with it, every live weight of the
    /// batch, all at the current time: `delete_batch_at` with what the clock
    /// says. Only the owner may.
    pub fn delete_batch(&mut self, batch_id: &str, caller: Principal) -> (r: Result<(), TrackerError>)
        requires
            old(self).wf(),
        ensures
            final(self).wf(),
            final(self).grants() == old(self).grants(),
            match delete_batch_refusal(old(self).batches(), batch_id@, caller@) {
                Some(e) => {
                    &&& r == Err::<(), TrackerError>(e)
                    &&& final(self).batches() == old(self).batches()
                    &&& final(self).weights() == old(self).weights()
                },
                None => {
                    &&& r is Ok
                    &&& batch_deleted(old(self).batches(), final(self).batches(), batch_id@)
                    &&& weights_cascaded(old(self).weights(), final(self).weights(), batch_id@)
                },
            },
    {
        let now = self.time_provider.get_time();
        self.delete_batch_at(batch_id, caller, now)
    }
}

/// Why a request to share a batch is refused, if it is. The checks are made
/// in this order and the first that fails decides.
pub open spec fn share_refusal(
    batches: Seq<BatchView>,
    grants: Set<Grant>,
    owner: Seq<u8>,
    collaborator: Seq<u8>,
    batch_id: Seq<char>,
) -> Option<TrackerError> {
    if owner == collaborator {
        Some(TrackerError::SelfSharing)
    } else if collaborator == anonymous_bytes() {
        Some(TrackerError::AnonymousCollaborator)
    } else if blank(batch_id) {
        Some(TrackerError::EmptyBatchId)
    } else if !has_batch(batches, batch_id) {
        Some(TrackerError::BatchNotFound)
    } else if batch_at(batches, batch_id).owner != owner {
        Some(TrackerError::CannotShareBatch)
    } else if !batch_at(batches, batch_id).live() {
        Some(TrackerError::BatchDeleted)
    } else if access_allowed(grants, owner, collaborator, Some(batch_id)) {
        Some(TrackerError::AlreadyShared)
    } else {
        None
    }
}

/// The collaborator has access to one of the batches.
pub open spec fn shared_among(grants: Set<Grant>, owner: Seq<u8>, collaborator: Seq<u8>, batches: Seq<BatchView>) -> bool {
    exists|k: int|
        0 <= k < batches.len() && grants.contains(
            Grant { owner, collaborator, batch_id: (#[trigger] batches[k]).id },
        )
}

/// Why a request to remove sharing is refused, if it is.
///
/// The caller must own a live batch and must have shared something with the
/// collaborator. Owning any live batch is enough: the batches that are
/// shared are not asked for, which is weaker than it could be and is kept so
/// on purpose.
pub open spec fn removal_refusal(
    batches: Seq<BatchView>,
    grants: Set<Grant>,
    caller: Seq<u8>,
    collaborator: Seq<u8>,
) -> Option<TrackerError> {
    if owned_live(batches, caller).len() == 0 {
        Some(TrackerError::CannotRemoveSharing)
    } else if !is_collaborator(grants, caller, collaborator) {
        Some(TrackerError::NoSharingWithCollaborator)
    } else {
        None
    }
}

/// Whether a request to remove sharing, once admitted, takes grants back:
/// it does where the collaborator is another principal and has been granted
/// access to some live batch of the caller. What an owner may do with its
/// own batches rests on no grant, so a caller that names itself takes
/// nothing back.
pub open spec fn removes_grants(
    batches: Seq<BatchView>,
    grants: Set<Grant>,
    caller: Seq<u8>,
    collaborator: Seq<u8>,
) -> bool {
    caller != collaborator && shared_among(grants, caller, collaborator, owned_live(batches, caller))
}

/// The number of removals that a request to remove sharing counts. The one
/// removal takes back every grant from the caller to the collaborator, so
/// the number is 0 or 1.
pub open spec fn removal_count(
    batches: Seq<BatchView>,
    grants: Set<Grant>,
    caller: Seq<u8>,
    collaborator: Seq<u8>,
) -> nat {
    if removes_grants(batches, grants, caller, collaborator) {
        1
    } else {
        0
    }
}

/// The grants that a request to remove sharing leaves: without those from
/// the caller to the collaborator where the request is admitted and takes
/// grants back; else as they were. A request that is refused changes
/// nothing.
pub open spec fn grants_after_removal(
    batches: Seq<BatchView>,
    grants: Set<Grant>,
    caller: Seq<u8>,
    collaborator: Seq<u8>,
) -> Set<Grant> {
    if removal_refusal(batches, grants, caller, collaborator) is None && removes_grants(
        batches,
        grants,
        caller,
        collaborator,
    ) {
        without_collaborator(grants, caller, collaborator)
    } else {
        grants
    }
}

/// The message for a number of removals.
pub open spec fn removal_text(count: nat) -> Seq<char> {
    if count == 0 {
        "No shared batches found to remove"@
    } else {
        "Successfully removed sharing permissions for "@ + decimal(count) + " batches"@
    }
}

/// Whether the list holds the principal.
fn holds_principal(list: &Vec<Principal>, principal: Principal) -> (r: bool)
    ensures
        r == principal_views(list@).contains(principal@),
{
    let mut i: usize = 0;
    while i < list.len()
        invariant
            i <= list.len(),
            forall|k: int| 0 <= k < i ==> (#[trigger] principal_views(list@)[k]) != principal@,
        decreases list.len() - i,
    {
        if list[i] == principal {
            assert(principal_views(list@)[i as int] == principal@);
            return true;
        }
        i += 1;
    }
    false
}

/// Grants and takes back access to batches on behalf of their owner.
pub struct AccessControlService<A: AccessControl, B: BatchRepository> {
    access_control: A,
    batch_repo: B,
}

impl<A: AccessControl, B: BatchRepository> AccessControlService<A, B> {
    /// The batches.
    pub closed spec fn batches(&self) -> Seq<BatchView> {
        self.batch_repo.entries()
    }

    /// The sharing grants.
    pub closed spec fn grants(&self) -> Set<Grant> {
        self.access_control.grants()
    }

    /// The sharing store is in order.
    pub closed spec fn access_wf(&self) -> bool {
        self.access_control.wf()
    }

    /// The stores are in order.
    pub open spec fn wf(&self) -> bool {
        &&& batches_wf(self.batches())
        &&& self.access_wf()
    }

    /// A service on the given stores.
    pub fn new(access_control: A, batch_repo: B) -> (s: Self)
        requires
            batches_wf(batch_repo.entries()),
            access_control.wf(),
        ensures
            s.wf(),
            s.batches() == batch_repo.entries(),
            s.grants() == access_control.grants(),
    {
        AccessControlService { access_control, batch_repo }
    }

    /// Hands the stores back.
    pub fn into_parts(self) -> (parts: (A, B))
        requires
            self.wf(),
        ensures
            parts.0.grants() == self.grants(),
            parts.1.entries() == self.batches(),
            parts.0.wf(),
            batches_wf(parts.1.entries()),
    {
        (self.access_control, self.batch_repo)
    }

    /// Grants a collaborator access to one live batch of the owner.
    ///
    /// Refused as `share_refusal` says; sharing a batch a second time with
    /// the same collaborator is an error.
    pub fn share_with_user(&mut self, owner: Principal, collaborator: Principal, batch_id: String) -> (r: Result<
        String,
        TrackerError,
    >)
        requires
            old(self).wf(),
        ensures
            final(self).wf(),
            final(self).batches() == old(self).batches(),
            match share_refusal(old(self).batches(), old(self).grants(), owner@, collaborator@, batch_id@) {
                Some(e) => r == Err::<String, TrackerError>(e) && final(self).grants() == old(self).grants(),
                None => {
                    &&& r matches Ok(text) && text@ == "Batch shared successfully with collaborator"@
                    &&& final(self).grants() == old(self).grants().insert(
                        Grant { owner: owner@, collaborator: collaborator@, batch_id: batch_id@ },
                    )
                },
            },
    {
        if owner == collaborator {
            return Err(TrackerError::SelfSharing);
        }
        if collaborator.is_anonymous() {
            return Err(TrackerError::AnonymousCollaborator);
        }
        if is_blank(batch_id.as_str()) {
            return Err(TrackerError::EmptyBatchId);
        }
        match self.batch_repo.get(batch_id.as_str()) {
            None => {
                return Err(TrackerError::BatchNotFound);
            },
            Some(batch) => {
                if batch.owner != owner {
                    return Err(TrackerError::CannotShareBatch);
                }
                if batch.deleted_at.is_some() {
                    return Err(TrackerError::BatchDeleted);
                }
            },
        }
        if self.access_control.has_access(owner, collaborator, Some(batch_id.as_str())) {
            return Err(TrackerError::AlreadyShared);
        }
        match self.access_control.share_access(owner, collaborator, batch_id) {
            Ok(()) => Ok("Batch shared successfully with collaborator".to_string()),
            Err(e) => Err(e),
        }
    }

    /// Takes back what the caller has shared with the collaborator.
    ///
    /// Refused as `removal_refusal` says, and then nothing changes. Otherwise
    /// the live batches of the caller are taken in store order up to the
    /// first to which the collaborator has been granted access: there every
    /// grant from the caller to the collaborator is taken back, and the
    /// removal is counted. Grants for batches that are deleted by now are
    /// taken back with the others, but open no removal themselves. A caller
    /// that names itself as collaborator takes nothing back.
    pub fn remove_sharing(&mut self, caller: Principal, collaborator: Principal) -> (r: Result<String, TrackerError>)
        requires
            old(self).wf(),
        ensures
            final(self).wf(),
            final(self).batches() == old(self).batches(),
            final(self).grants() == grants_after_removal(
                old(self).batches(),
                old(self).grants(),
                caller@,
                collaborator@,
            ),
            match removal_refusal(old(self).batches(), old(self).grants(), caller@, collaborator@) {
                Some(e) => r == Err::<String, TrackerError>(e),
                None => r matches Ok(text) && text@ == removal_text(
                    removal_count(old(self).batches(), old(self).grants(), caller@, collaborator@),
                ),
            },
    {
        let owned = list_owned(&self.batch_repo, caller);
        if owned.len() == 0 {
            return Err(TrackerError::CannotRemoveSharing);
        }
        let collaborators = self.access_control.get_collaborators(caller);
        if !holds_principal(&collaborators, collaborator) {
            return Err(TrackerError::NoSharingWithCollaborator);
        }
        let ghost shown = batch_views(owned@);
        let ghost start = self.grants();
        let mut removed: usize = 0;
        if caller != collaborator {
            let mut k: usize = 0;
            while k < owned.len() && removed == 0
                invariant
                    k <= owned.len(),
                    self.wf(),
                    self.batches() == old(self).batches(),
                    shown == batch_views(owned@),
                    start == old(self).grants(),
                    caller@ != collaborator@,
                    removed <= 1,
                    if removed == 1 {
                        &&& shared_among(start, caller@, collaborator@, shown)
                        &&& self.grants() == without_collaborator(start, caller@, collaborator@)
                    } else {
                        &&& !shared_among(start, caller@, collaborator@, shown.take(k as int))
                        &&& self.grants() == start
                    },
                decreases owned.len() - k,
            {
                proof {
                    lemma_take_next(shown, k as int);
                }
                if self.access_control.has_access(caller, collaborator, Some(owned[k].id.as_str())) {
                    proof {
                        assert(start.contains(
                            Grant { owner: caller@, collaborator: collaborator@, batch_id: shown[k as int].id },
                        ));
                        assert(shared_among(start, caller@, collaborator@, shown));
                    }
                    match self.access_control.remove_access(caller, collaborator) {
                        Ok(()) => {},
                        Err(e) => {
                            return Err(e);
                        },
                    }
                    removed = 1;
                } else {
                    proof {
                        let done = shown.take(k as int);
                        let next = shown.take(k + 1);
                        if shared_among(start, caller@, collaborator@, next) {
                            let t = choose|t: int|
                                0 <= t < next.len() && start.contains(
                                    Grant {
                                        owner: caller@,
                                        collaborator: collaborator@,
                                        batch_id: (#[trigger] next[t]).id,
                                    },
                                );
                            if t < k {
                                assert(done[t] == next[t]);
                            }
                        }
                    }
                }
                k += 1;
            }
            proof {
                if removed == 0 {
                    lemma_take_all(shown);
                }
            }
        }
        if removed == 0 {
            Ok("No shared batches found to remove".to_string())
        } else {
            let mut text = "Successfully removed sharing permissions for ".to_string();
            push_decimal(&mut text, removed as u64);
            text.append(" batches");
            Ok(text)
        }
    }

    /// The principals with whom the owner has shared a batch, each once.
    pub fn get_collaborators(&self, owner: Principal) -> (r: Vec<Principal>)
        requires
            self.wf(),
        ensures
            principal_views(r@).no_duplicates(),
            forall|c: Seq<u8>| #[trigger]
                principal_views(r@).contains(c) <==> is_collaborator(self.grants(), owner@, c),
    {
        self.access_control.get_collaborators(owner)
    }
}

} // verus!
