//! The records that the stores hold and the requests that the services take.
//!
//! Each record type has a view: the same fields as mathematical values,
//! with texts as sequences of characters and principals as sequences of
//! bytes. The contracts of the stores and services speak of views only.

use vstd::prelude::*;
use crate::principal::Principal;
use crate::value::{WeightValue, INFINITY_BITS, NEG_INFINITY_BITS};

verus! {

/// The view of an optional text.
pub open spec fn opt_text(text: Option<String>) -> Option<Seq<char>> {
    match text {
        Some(t) => Some(t@),
        None => None,
    }
}

/// The view of an optional borrowed text.
pub open spec fn opt_str(text: Option<&str>) -> Option<Seq<char>> {
    match text {
        Some(t) => Some(t@),
        None => None,
    }
}

/// The identity of a weight record.
pub struct WeightKeyView {
    pub owner: Seq<u8>,
    pub item_id: Seq<char>,
    pub created_at: u64,
}

/// The identity of a weight record: who owns it, which item was weighed, and
/// when the record was created. These are fields of the record itself, so a
/// record has one identity and keeps it: an update changes the value and
/// the time of update, a deletion the time of deletion, and nothing else.
#[derive(Debug)]
pub struct WeightKey {
    pub owner: Principal,
    pub item_id: String,
    pub created_at: u64,
}

impl View for WeightKey {
    type V = WeightKeyView;

    open spec fn view(&self) -> WeightKeyView {
        WeightKeyView { owner: self.owner@, item_id: self.item_id@, created_at: self.created_at }
    }
}

impl Clone for WeightKey {
    fn clone(&self) -> (r: WeightKey)
        ensures
            r == *self,
    {
        WeightKey { owner: self.owner, item_id: self.item_id.clone(), created_at: self.created_at }
    }
}

/// A weight record as a mathematical value.
pub struct WeightView {
    pub owner: Seq<u8>,
    pub batch_id: Seq<char>,
    pub item_id: Seq<char>,
    pub weight: WeightValue,
    pub created_at: u64,
    pub updated_at: u64,
    pub deleted_at: Option<u64>,
}

impl WeightView {
    /// The identity of the record.
    pub open spec fn key(self) -> WeightKeyView {
        WeightKeyView { owner: self.owner, item_id: self.item_id, created_at: self.created_at }
    }

    /// The record is not soft-deleted.
    pub open spec fn live(self) -> bool {
        self.deleted_at is None
    }

    /// The record with a new value, as updated at `now`.
    pub open spec fn with_value(self, value: WeightValue, now: u64) -> WeightView {
        WeightView { weight: value, updated_at: now, ..self }
    }

    /// The record as soft-deleted at `now`.
    pub open spec fn deleted(self, now: u64) -> WeightView {
        WeightView { deleted_at: Some(now), ..self }
    }
}

/// One measurement of one item in one batch.
#[derive(Debug)]
pub struct Weight {
    pub owner: Principal,
    pub batch_id: String,
    pub item_id: String,
    pub weight: WeightValue,
    pub created_at: u64,
    pub updated_at: u64,
    pub deleted_at: Option<u64>,
}

impl View for Weight {
    type V = WeightView;

    open spec fn view(&self) -> WeightView {
        WeightView {
            owner: self.owner@,
            batch_id: self.batch_id@,
            item_id: self.item_id@,
            weight: self.weight,
            created_at: self.created_at,
            updated_at: self.updated_at,
            deleted_at: self.deleted_at,
        }
    }
}

impl Clone for Weight {
    fn clone(&self) -> (r: Weight)
        ensures
            r == *self,
    {
        Weight {
            owner: self.owner,
            batch_id: self.batch_id.clone(),
            item_id: self.item_id.clone(),
            weight: self.weight,
            created_at: self.created_at,
            updated_at: self.updated_at,
            deleted_at: self.deleted_at,
        }
    }
}

impl Weight {
    /// The identity of the record.
    pub fn key(&self) -> (r: WeightKey)
        ensures
            r@ == self@.key(),
    {
        WeightKey { owner: self.owner, item_id: self.item_id.clone(), created_at: self.created_at }
    }
}

/// The views of a sequence of weight records.
pub open spec fn weight_views(weights: Seq<Weight>) -> Seq<WeightView> {
    weights.map_values(|w: Weight| w@)
}

/// A batch as a mathematical value.
pub struct BatchView {
    pub id: Seq<char>,
    pub name: Seq<char>,
    pub owner: Seq<u8>,
    pub description: Option<Seq<char>>,
    pub created_at: u64,
    pub updated_at: u64,
    pub deleted_at: Option<u64>,
}

impl BatchView {
    /// The batch is not soft-deleted.
    pub open spec fn live(self) -> bool {
        self.deleted_at is None
    }

    /// The batch with a new name and description, as updated at `now`.
    pub open spec fn renamed(self, name: Seq<char>, description: Option<Seq<char>>, now: u64) -> BatchView {
        BatchView { name, description, updated_at: now, ..self }
    }

    /// The batch as soft-deleted at `now`.
    pub open spec fn deleted(self, now: u64) -> BatchView {
        BatchView { deleted_at: Some(now), ..self }
    }
}

/// A named container of weight records, owned by one principal.
#[derive(Debug)]
pub struct Batch {
    pub id: String,
    pub name: String,
    pub owner: Principal,
    pub description: Option<String>,
    pub created_at: u64,
    pub updated_at: u64,
    pub deleted_at: Option<u64>,
}

impl View for Batch {
    type V = BatchView;

    open spec fn view(&self) -> BatchView {
        BatchView {
            id: self.id@,
            name: self.name@,
            owner: self.owner@,
            description: opt_text(self.description),
            created_at: self.created_at,
            updated_at: self.updated_at,
            deleted_at: self.deleted_at,
        }
    }
}

impl Clone for Batch {
    fn clone(&self) -> (r: Batch)
        ensures
            r == *self,
    {
        Batch {
            id: self.id.clone(),
            name: self.name.clone(),
            owner: self.owner,
            description: self.description.clone(),
            created_at: self.created_at,
            updated_at: self.updated_at,
            deleted_at: self.deleted_at,
        }
    }
}

/// The views of a sequence of batches.
pub open spec fn batch_views(batches: Seq<Batch>) -> Seq<BatchView> {
    batches.map_values(|b: Batch| b@)
}

/// A request to record a weight.
pub struct CreateWeightRequestView {
    pub owner_override: Option<Seq<u8>>,
    pub batch_id: Seq<char>,
    pub item_id: Seq<char>,
    pub weight: WeightValue,
}

/// A request to record a weight. The record's owner is always the owner of
/// the batch; `owner_override` is carried for the transport and not read.
#[derive(Debug)]
pub struct CreateWeightRequest {
    pub owner_override: Option<Principal>,
    pub batch_id: String,
    pub item_id: String,
    pub weight: WeightValue,
}

impl View for CreateWeightRequest {
    type V = CreateWeightRequestView;

    open spec fn view(&self) -> CreateWeightRequestView {
        CreateWeightRequestView {
            owner_override: match self.owner_override {
                Some(p) => Some(p@),
                None => None,
            },
            batch_id: self.batch_id@,
            item_id: self.item_id@,
            weight: self.weight,
        }
    }
}

impl Clone for CreateWeightRequest {
    fn clone(&self) -> (r: CreateWeightRequest)
        ensures
            r == *self,
    {
        CreateWeightRequest {
            owner_override: self.owner_override,
            batch_id: self.batch_id.clone(),
            item_id: self.item_id.clone(),
            weight: self.weight,
        }
    }
}

/// A name and an optional description.
pub struct BatchDetailsView {
    pub name: Seq<char>,
    pub description: Option<Seq<char>>,
}

/// A request to create a batch.
#[derive(Debug)]
pub struct CreateBatchRequest {
    pub name: String,
    pub description: Option<String>,
}

impl View for CreateBatchRequest {
    type V = BatchDetailsView;

    open spec fn view(&self) -> BatchDetailsView {
        BatchDetailsView { name: self.name@, description: opt_text(self.description) }
    }
}

impl Clone for CreateBatchRequest {
    fn clone(&self) -> (r: CreateBatchRequest)
        ensures
            r == *self,
    {
        CreateBatchRequest { name: self.name.clone(), description: self.description.clone() }
    }
}

/// A request to change a batch's name and description.
#[derive(Debug)]
pub struct UpdateBatchRequest {
    pub name: String,
    pub description: Option<String>,
}

impl View for UpdateBatchRequest {
    type V = BatchDetailsView;

    open spec fn view(&self) -> BatchDetailsView {
        BatchDetailsView { name: self.name@, description: opt_text(self.description) }
    }
}

impl Clone for UpdateBatchRequest {
    fn clone(&self) -> (r: UpdateBatchRequest)
        ensures
            r == *self,
    {
        UpdateBatchRequest { name: self.name.clone(), description: self.description.clone() }
    }
}

/// A batch that can be offered for sharing, as a mathematical value.
pub struct ShareableBatchView {
    pub id: Seq<char>,
    pub name: Seq<char>,
}

/// The identifier and name of a batch that can be offered for sharing.
#[derive(Debug)]
pub struct ShareableBatch {
    pub id: String,
    pub name: String,
}

impl View for ShareableBatch {
    type V = ShareableBatchView;

    open spec fn view(&self) -> ShareableBatchView {
        ShareableBatchView { id: self.id@, name: self.name@ }
    }
}

impl Clone for ShareableBatch {
    fn clone(&self) -> (r: ShareableBatch)
        ensures
            r == *self,
    {
        ShareableBatch { id: self.id.clone(), name: self.name.clone() }
    }
}

/// A request to take back everything shared with one collaborator.
#[derive(Clone, Copy, Debug)]
pub struct RemoveSharingRequest {
    pub collaborator: Principal,
}

/// One grant: `owner` lets `collaborator` work on the batch `batch_id`.
pub struct Grant {
    pub owner: Seq<u8>,
    pub collaborator: Seq<u8>,
    pub batch_id: Seq<char>,
}

/// What one owner has shared with one collaborator, as a mathematical value.
pub struct CollaboratorAccessView {
    pub collaborator: Seq<u8>,
    pub batch_ids: Seq<Seq<char>>,
}

/// The batches that one owner has shared with one collaborator.
#[derive(Debug)]
pub struct CollaboratorAccess {
    pub collaborator: Principal,
    pub batch_ids: Vec<String>,
}

/// The views of a sequence of texts.
pub open spec fn text_views(texts: Seq<String>) -> Seq<Seq<char>> {
    texts.map_values(|t: String| t@)
}

impl View for CollaboratorAccess {
    type V = CollaboratorAccessView;

    open spec fn view(&self) -> CollaboratorAccessView {
        CollaboratorAccessView { collaborator: self.collaborator@, batch_ids: text_views(self.batch_ids@) }
    }
}

/// Everything one owner has shared, as a mathematical value.
pub struct SharingPermissionsView {
    pub owner: Seq<u8>,
    pub shared_with: Seq<CollaboratorAccessView>,
}

/// Everything one owner has shared: for each collaborator, the batches
/// shared with that collaborator.
#[derive(Debug)]
pub struct SharingPermissions {
    pub owner: Principal,
    pub shared_with: Vec<CollaboratorAccess>,
}

/// The views of a sequence of collaborator entries.
pub open spec fn access_views(entries: Seq<CollaboratorAccess>) -> Seq<CollaboratorAccessView> {
    entries.map_values(|e: CollaboratorAccess| e@)
}

impl View for SharingPermissions {
    type V = SharingPermissionsView;

    open spec fn view(&self) -> SharingPermissionsView {
        SharingPermissionsView { owner: self.owner@, shared_with: access_views(self.shared_with@) }
    }
}

/// The smaller of the running minimum and the next value. A NaN never
/// replaces the minimum, and of two values of one rank the earlier stays.
pub open spec fn min_step(acc: WeightValue, v: WeightValue) -> WeightValue {
    if v.less_than(acc) {
        v
    } else {
        acc
    }
}

/// The larger of the running maximum and the next value. A NaN never
/// replaces the maximum, and of two values of one rank the earlier stays.
pub open spec fn max_step(acc: WeightValue, v: WeightValue) -> WeightValue {
    if acc.less_than(v) {
        v
    } else {
        acc
    }
}

/// The least of the values that are numbers; positive infinity when there
/// is none. The statistics of no values at all are zero all the same: see
/// `BatchStats::of`.
pub open spec fn min_of(values: Seq<WeightValue>) -> WeightValue
    decreases values.len(),
{
    if values.len() == 0 {
        WeightValue { bits: INFINITY_BITS }
    } else {
        min_step(min_of(values.drop_last()), values.last())
    }
}

/// The greatest of the values that are numbers; negative infinity when
/// there is none. The statistics of no values at all are zero all the same:
/// see `BatchStats::of`.
pub open spec fn max_of(values: Seq<WeightValue>) -> WeightValue
    decreases values.len(),
{
    if values.len() == 0 {
        WeightValue { bits: NEG_INFINITY_BITS }
    } else {
        max_step(max_of(values.drop_last()), values.last())
    }
}

/// Count, minimum and maximum of the live weights of a batch.
///
/// The mean is not part of the statistics: it takes rounding arithmetic on
/// the numbers themselves, which the caller does on the values that
/// `BatchService::live_values` returns.
#[derive(Clone, Copy, Debug, PartialEq, Eq, Structural)]
pub struct BatchStats {
    pub count: u64,
    pub min_weight: WeightValue,
    pub max_weight: WeightValue,
}

impl BatchStats {
    /// The statistics of a batch without live weights: all zero.
    pub open spec fn zeroed() -> BatchStats {
        BatchStats { count: 0, min_weight: WeightValue { bits: 0 }, max_weight: WeightValue { bits: 0 } }
    }

    /// The statistics of the given values: all zero where there is no
    /// value, else their count, minimum and maximum.
    pub open spec fn of(values: Seq<WeightValue>) -> BatchStats {
        if values.len() == 0 {
            BatchStats::zeroed()
        } else {
            BatchStats { count: values.len() as u64, min_weight: min_of(values), max_weight: max_of(values) }
        }
    }

    /// The statistics of a batch without live weights: all zero.
    pub fn empty() -> (r: BatchStats)
        ensures
            r == BatchStats::zeroed(),
    {
        BatchStats { count: 0, min_weight: WeightValue::zero(), max_weight: WeightValue::zero() }
    }

    /// Count, minimum and maximum of the given values; all zero where
    /// there is no value.
    pub fn from_weights(weights: &[WeightValue]) -> (r: BatchStats)
        ensures
            r == BatchStats::of(weights@),
            r.count == weights@.len(),
    {
        if weights.len() == 0 {
            return BatchStats::empty();
        }
        let mut min = WeightValue::infinity();
        let mut max = WeightValue::neg_infinity();
        let mut i: usize = 0;
        while i < weights.len()
            invariant
                i <= weights.len(),
                min == min_of(weights@.take(i as int)),
                max == max_of(weights@.take(i as int)),
            decreases weights.len() - i,
        {
            let v = weights[i];
            proof {
                let next = weights@.take(i + 1);
                assert(next.drop_last() =~= weights@.take(i as int));
            }
            if v.is_less_than(min) {
                min = v;
            }
            if max.is_less_than(v) {
                max = v;
            }
            i += 1;
        }
        assert(weights@.take(weights.len() as int) =~= weights@);
        BatchStats { count: weights.len() as u64, min_weight: min, max_weight: max }
    }
}

/// The minimum is a number; no value that is a number ranks below it; and it
/// is positive infinity or one of the values.
pub proof fn lemma_min_of(values: Seq<WeightValue>)
    ensures
        !min_of(values).nan(),
        forall|i: int| 0 <= i < values.len() && !values[i].nan() ==> min_of(values).rank() <= (#[trigger] values[i]).rank(),
        min_of(values).bits == INFINITY_BITS || values.contains(min_of(values)),
    decreases values.len(),
{
    if values.len() > 0 {
        let init = values.drop_last();
        lemma_min_of(init);
        assert forall|i: int| 0 <= i < values.len() && !values[i].nan() implies min_of(values).rank() <= (#[trigger] values[i]).rank() by {
            if i < values.len() - 1 {
                assert(init[i] == values[i]);
            }
        }
    }
}

/// The maximum is a number; no value that is a number ranks above it; and it
/// is negative infinity or one of the values.
pub proof fn lemma_max_of(values: Seq<WeightValue>)
    ensures
        !max_of(values).nan(),
        forall|i: int| 0 <= i < values.len() && !values[i].nan() ==> (#[trigger] values[i]).rank() <= max_of(values).rank(),
        max_of(values).bits == NEG_INFINITY_BITS || values.contains(max_of(values)),
    decreases values.len(),
{
    if values.len() > 0 {
        let init = values.drop_last();
        lemma_max_of(init);
        assert forall|i: int| 0 <= i < values.len() && !values[i].nan() implies (#[trigger] values[i]).rank() <= max_of(values).rank() by {
            if i < values.len() - 1 {
                assert(init[i] == values[i]);
            }
        }
    }
}

/// A batch together with its statistics, as a mathematical value.
pub struct BatchWithStatsView {
    pub batch: BatchView,
    pub stats: BatchStats,
}

/// A batch together with the statistics of its live weights.
#[derive(Debug)]
pub struct BatchWithStats {
    pub batch: Batch,
    pub stats: BatchStats,
}

impl View for BatchWithStats {
    type V = BatchWithStatsView;

    open spec fn view(&self) -> BatchWithStatsView {
        BatchWithStatsView { batch: self.batch@, stats: self.stats }
    }
}

impl Clone for BatchWithStats {
    fn clone(&self) -> (r: BatchWithStats)
        ensures
            r == *self,
    {
        BatchWithStats { batch: self.batch.clone(), stats: self.stats }
    }
}

} // verus!
