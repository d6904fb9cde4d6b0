//! What holds of the rules as a whole: facts that relate several operations
//! or speak of every state of the stores.

use vstd::prelude::*;
use crate::errors::TrackerError;
use crate::models::{BatchStats, BatchView, CreateWeightRequestView, Grant, WeightView};
use crate::sequences::lemma_filter_holds;
use crate::services::{batch_id_at, create_weight_refusal, stats_for};
use crate::text::{decimal, lemma_decimal_injective};
use crate::traits::{
    access_allowed, batch_at, batch_deleted, batch_index, batches_wf, has_batch, lemma_batch_index,
    select_weights, weight_selected,
};
use crate::value::{lemma_recordable_numbers, limit_units, WeightValue, MAX_WEIGHT_BITS};

verus! {

/// The value is a finite number greater than zero and no greater than
/// 10000.
pub open spec fn in_range(value: WeightValue) -> bool {
    value.finite() && 0 < value.signed_units() <= limit_units()
}

/// A weight is recorded only with a value that is a number greater than zero
/// and no greater than 10000. A value outside that range is refused as
/// invalid or out of range, whatever else the request holds, and a value
/// inside it is never refused for its value. The smallest positive number
/// and 10000 itself are inside. On encodings the range runs from 1 to the
/// encoding of 10000.
pub proof fn law_recorded_values_in_range(
    batches: Seq<BatchView>,
    grants: Set<Grant>,
    request: CreateWeightRequestView,
    caller: Seq<u8>,
)
    ensures
        create_weight_refusal(batches, grants, request, caller) is None ==> in_range(request.weight),
        !in_range(request.weight) ==> {
            ||| create_weight_refusal(batches, grants, request, caller) == Some(TrackerError::InvalidValue)
            ||| create_weight_refusal(batches, grants, request, caller) == Some(TrackerError::OutOfRange)
        },
        in_range(request.weight) ==> {
            &&& create_weight_refusal(batches, grants, request, caller) != Some(TrackerError::InvalidValue)
            &&& create_weight_refusal(batches, grants, request, caller) != Some(TrackerError::OutOfRange)
        },
        in_range(WeightValue { bits: 1 }),
        (WeightValue { bits: 1 }).signed_units() == 1,
        in_range(WeightValue { bits: MAX_WEIGHT_BITS }),
        in_range(request.weight) <==> 1 <= request.weight.bits <= MAX_WEIGHT_BITS,
        create_weight_refusal(batches, grants, request, caller) is None ==> 1 <= request.weight.bits
            <= MAX_WEIGHT_BITS,
        !(1 <= request.weight.bits <= MAX_WEIGHT_BITS) ==> {
            ||| create_weight_refusal(batches, grants, request, caller) == Some(TrackerError::InvalidValue)
            ||| create_weight_refusal(batches, grants, request, caller) == Some(TrackerError::OutOfRange)
        },
        1 <= request.weight.bits <= MAX_WEIGHT_BITS ==> {
            &&& create_weight_refusal(batches, grants, request, caller) != Some(TrackerError::InvalidValue)
            &&& create_weight_refusal(batches, grants, request, caller) != Some(TrackerError::OutOfRange)
        },
{
    let least = WeightValue { bits: 1 };
    lemma_recordable_numbers(request.weight);
    lemma_recordable_numbers(least);
    lemma_recordable_numbers(WeightValue { bits: MAX_WEIGHT_BITS });
}

/// The count in a batch's statistics is the number of live weights of the
/// batch, and zero for a batch that is soft-deleted.
pub proof fn law_stats_count(batches: Seq<BatchView>, weights: Seq<WeightView>, batch_id: Seq<char>)
    requires
        weights.len() <= u64::MAX,
    ensures
        stats_for(batches, weights, batch_id).count == if has_batch(batches, batch_id) && !batch_at(
            batches,
            batch_id,
        ).live() {
            0
        } else {
            select_weights(weights, Some(batch_id), false).len()
        },
{
    weights.lemma_filter_len(|w: WeightView| weight_selected(w, Some(batch_id), false));
}

/// Once a batch is deleted its statistics are all zero, whatever weights the
/// store holds.
pub proof fn law_deleted_batch_has_no_stats(
    before: Seq<BatchView>,
    after: Seq<BatchView>,
    weights: Seq<WeightView>,
    batch_id: Seq<char>,
)
    requires
        batches_wf(before),
        batch_deleted(before, after, batch_id),
    ensures
        stats_for(after, weights, batch_id) == BatchStats::zeroed(),
{
    let i = batch_index(before, batch_id);
    lemma_batch_index(after, batch_id, i);
}

/// An owner has access to everything it owns, whatever has been shared and
/// whichever batch is named.
pub proof fn law_owner_has_access(grants: Set<Grant>, owner: Seq<u8>, batch_id: Option<Seq<char>>)
    ensures
        access_allowed(grants, owner, owner, batch_id),
{
}

/// A listing without deleted records shows live records only.
pub proof fn law_listing_hides_deleted(entries: Seq<WeightView>, batch_id: Option<Seq<char>>, k: int)
    requires
        0 <= k < select_weights(entries, batch_id, false).len(),
    ensures
        select_weights(entries, batch_id, false)[k].live(),
{
    let keep = |w: WeightView| weight_selected(w, batch_id, false);
    entries.lemma_filter_pred(keep, k);
}

/// A soft-deleted record is in no listing without deleted records and, with
/// its time of deletion, in every listing with deleted records that is for
/// its batch or for all batches.
pub proof fn law_deleted_listed_on_request(entries: Seq<WeightView>, batch_id: Option<Seq<char>>, i: int)
    requires
        0 <= i < entries.len(),
        !entries[i].live(),
        batch_id matches Some(id) ==> entries[i].batch_id == id,
    ensures
        !select_weights(entries, batch_id, false).contains(entries[i]),
        select_weights(entries, batch_id, true).contains(entries[i]),
{
    lemma_filter_holds(entries, |w: WeightView| weight_selected(w, batch_id, false), entries[i]);
    lemma_filter_holds(entries, |w: WeightView| weight_selected(w, batch_id, true), entries[i]);
}

/// Sharing is by batch: a grant for one batch changes nobody's access to any
/// other batch.
pub proof fn law_sharing_is_per_batch(
    grants: Set<Grant>,
    shared: Grant,
    owner: Seq<u8>,
    accessor: Seq<u8>,
    other: Seq<char>,
)
    requires
        other != shared.batch_id,
    ensures
        access_allowed(grants.insert(shared), owner, accessor, Some(other)) == access_allowed(
            grants,
            owner,
            accessor,
            Some(other),
        ),
{
}

/// Batches created at different times have different identifiers.
pub proof fn law_batch_ids_differ(earlier: u64, later: u64)
    requires
        batch_id_at(earlier) == batch_id_at(later),
    ensures
        earlier == later,
{
    let prefix = "batch_"@;
    let a = decimal(earlier as nat);
    let b = decimal(later as nat);
    assert((prefix + a).subrange(prefix.len() as int, (prefix + a).len() as int) =~= a);
    assert((prefix + b).subrange(prefix.len() as int, (prefix + b).len() as int) =~= b);
    lemma_decimal_injective(earlier as nat, later as nat);
}

} // verus!
