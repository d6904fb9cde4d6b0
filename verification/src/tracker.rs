//! The service as its transport sees it: the three stores in one value, and
//! one operation for each request that a caller can make.
//!
//! An operation takes the state, the request and the caller, and gives back
//! the state and the answer. An operation that writes a time comes in two
//! forms: one that takes the time, its name ending in `_at`, and one that
//! reads the clock once and hands the time on. A caller that has not authenticated is the
//! anonymous principal; it is turned away by every operation but the two
//! that name no caller's own data, `get_collaborators` and
//! `get_batch_owner`.

use vstd::prelude::*;
use crate::errors::{render, TrackerError};
use crate::models::{
    opt_text, weight_views, BatchView, BatchWithStats, BatchWithStatsView, CreateBatchRequest,
    CreateWeightRequest, Grant, RemoveSharingRequest, ShareableBatch, ShareableBatchView,
    UpdateBatchRequest, Weight, WeightView,
};
use crate::principal::{anonymous_bytes, Principal};
use crate::repositories::{AccessControlImpl, BatchStorageImpl, WeightStorageImpl};
use crate::services::{
    batch_id_at, create_weight_refusal, delete_batch_refusal, delete_weight_refusal, first_record,
    get_batch_refusal, grants_after_removal, has_record, lemma_first_record_exists,
    live_weight_values, new_batch, new_weight, owned_batches, record_deleted, record_deleted_at,
    record_updated, record_updated_at, removal_count, removal_refusal, removal_text, share_refusal,
    shareable_batches, shareable_views, update_batch_refusal, update_weight_refusal,
    visible_batches, visible_weights, weights_cascaded, weights_cascaded_at, with_stats,
    with_stats_views, AccessControlService, BatchService, WeightService,
};
use crate::text::blank;
use crate::traits::{
    batch_at, batch_deleted, batch_deleted_at, batch_renamed, batch_renamed_at, batches_wf,
    has_batch, is_collaborator, principal_views, put_batch, put_weight, weights_wf, AccessControl,
    BatchRepository, TimeProvider, WeightRepository,
};
use crate::value::WeightValue;

verus! {

/// The caller has not authenticated.
pub open spec fn is_anonymous(caller: Seq<u8>) -> bool {
    caller == anonymous_bytes()
}

/// The state of the service: the weights, the batches and the sharing
/// grants, with the clock that times every change.
pub struct Tracker<TP: TimeProvider> {
    weights: WeightStorageImpl<TP>,
    batches: BatchStorageImpl<TP>,
    access: AccessControlImpl,
    clock: TP,
}

impl<TP: TimeProvider> Tracker<TP> {
    #[verifier::type_invariant]
    spec fn in_order(self) -> bool {
        &&& weights_wf(self.weights.entries())
        &&& batches_wf(self.batches.entries())
        &&& self.access.wf()
    }

    /// The weight records.
    pub closed spec fn weights(&self) -> Seq<WeightView> {
        self.weights.entries()
    }

    /// The batches.
    pub closed spec fn batches(&self) -> Seq<BatchView> {
        self.batches.entries()
    }

    /// The sharing grants.
    pub closed spec fn grants(&self) -> Set<Grant> {
        self.access.grants()
    }

    /// The two states hold the same records, batches and grants.
    pub open spec fn same_as(&self, other: &Self) -> bool {
        &&& self.weights() == other.weights()
        &&& self.batches() == other.batches()
        &&& self.grants() == other.grants()
    }

    /// The state with no weight, no batch and no grant.
    pub fn new(clock: TP) -> (t: Self)
        ensures
            t.weights() == Seq::<WeightView>::empty(),
            t.batches() == Seq::<BatchView>::empty(),
            t.grants() == Set::<Grant>::empty(),
    {
        Tracker {
            weights: WeightStorageImpl::new(clock.clone()),
            batches: BatchStorageImpl::new(clock.clone()),
            access: AccessControlImpl::new(),
            clock,
        }
    }

    fn into_weight_service(self) -> (s: WeightService<WeightStorageImpl<TP>, BatchStorageImpl<TP>, AccessControlImpl, TP>)
        ensures
            s.wf(),
            s.weights() == self.weights(),
            s.batches() == self.batches(),
            s.grants() == self.grants(),
    {
        proof {
            use_type_invariant(&self);
        }
        WeightService::new(self.weights, self.batches, self.access, self.clock)
    }

    fn from_weight_service(
        service: WeightService<WeightStorageImpl<TP>, BatchStorageImpl<TP>, AccessControlImpl, TP>,
    ) -> (t: Self)
        requires
            service.wf(),
        ensures
            t.weights() == service.weights(),
            t.batches() == service.batches(),
            t.grants() == service.grants(),
    {
        let (weights, batches, access, clock) = service.into_parts();
        Tracker { weights, batches, access, clock }
    }

    fn into_batch_service(self) -> (s: BatchService<BatchStorageImpl<TP>, WeightStorageImpl<TP>, AccessControlImpl, TP>)
        ensures
            s.wf(),
            s.weights() == self.weights(),
            s.batches() == self.batches(),
            s.grants() == self.grants(),
    {
        proof {
            use_type_invariant(&self);
        }
        BatchService::new(self.batches, self.weights, self.access, self.clock)
    }

    fn from_batch_service(
        service: BatchService<BatchStorageImpl<TP>, WeightStorageImpl<TP>, AccessControlImpl, TP>,
    ) -> (t: Self)
        requires
            service.wf(),
        ensures
            t.weights() == service.weights(),
            t.batches() == service.batches(),
            t.grants() == service.grants(),
    {
        let (batches, weights, access, clock) = service.into_parts();
        Tracker { weights, batches, access, clock }
    }

    /// Records a weight as created at `now`.
    pub fn create_weight_at(self, request: CreateWeightRequest, caller: Principal, now: u64) -> (r: (Self, String))
        ensures
            r.0.batches() == self.batches(),
            r.0.grants() == self.grants(),
            if is_anonymous(caller@) {
                r.1@ == "Please login with Internet Identity to create weights"@ && r.0.weights() == self.weights()
            } else {
                match create_weight_refusal(self.batches(), self.grants(), request@, caller@) {
                    Some(e) => r.1@ == e.message_text() && r.0.weights() == self.weights(),
                    None => {
                        &&& r.1@ == "Weight created successfully"@
                        &&& r.0.weights() == put_weight(self.weights(), new_weight(self.batches(), request@, now))
                    },
                }
            },
    {
        if caller.is_anonymous() {
            return (self, "Please login with Internet Identity to create weights".to_string());
        }
        let mut service = self.into_weight_service();
        let outcome = service.create_weight_at(request, caller, now);
        (Self::from_weight_service(service), render(outcome))
    }

    /// Records a weight as created at the current time: `create_weight_at`
    /// with what the clock says.
    pub fn create_weight(self, request: CreateWeightRequest, caller: Principal) -> (r: (Self, String))
        ensures
            r.0.batches() == self.batches(),
            r.0.grants() == self.grants(),
            if is_anonymous(caller@) {
                r.1@ == "Please login with Internet Identity to create weights"@ && r.0.weights() == self.weights()
            } else {
                match create_weight_refusal(self.batches(), self.grants(), request@, caller@) {
                    Some(e) => r.1@ == e.message_text() && r.0.weights() == self.weights(),
                    None => {
                        &&& r.1@ == "Weight created successfully"@
                        &&& exists|now: u64|
                            r.0.weights() == put_weight(
                                self.weights(),
                                #[trigger] new_weight(self.batches(), request@, now),
                            )
                    },
                }
            },
    {
        let now = self.clock.get_time();
        self.create_weight_at(request, caller, now)
    }

    /// The records of one batch, or of all batches, that the caller may see.
    pub fn get_all_weights(self, batch_id: Option<String>, include_deleted: bool, caller: Principal) -> (r: (
        Self,
        Vec<Weight>,
    ))
        ensures
            r.0.same_as(&self),
            weight_views(r.1@) == if is_anonymous(caller@) {
                Seq::<WeightView>::empty()
            } else {
                visible_weights(self.weights(), self.grants(), opt_text(batch_id), include_deleted, caller@)
            },
    {
        if caller.is_anonymous() {
            let none: Vec<Weight> = Vec::new();
            return (self, none);
        }
        let service = self.into_weight_service();
        let found = service.get_weights(batch_id, include_deleted, caller);
        (Self::from_weight_service(service), found)
    }

    /// Gives a weight a new value, as updated at `now`.
    pub fn update_weight_at(
        self,
        item_id: String,
        created_at: u64,
        weight: WeightValue,
        caller: Principal,
        now: u64,
    ) -> (r: (Self, String))
        ensures
            r.0.batches() == self.batches(),
            r.0.grants() == self.grants(),
            if is_anonymous(caller@) {
                r.1@ == "Please login with Internet Identity to update weights"@ && r.0.weights() == self.weights()
            } else {
                match update_weight_refusal(self.weights(), self.grants(), item_id@, created_at, caller@) {
                    Some(e) => r.1@ == e.message_text() && r.0.weights() == self.weights(),
                    None => {
                        &&& r.1@ == "Weight updated successfully"@
                        &&& r.0.weights() == record_updated_at(
                            self.weights(),
                            first_record(self.weights(), item_id@, created_at),
                            weight,
                            now,
                        )
                    },
                }
            },
    {
        if caller.is_anonymous() {
            return (self, "Please login with Internet Identity to update weights".to_string());
        }
        let mut service = self.into_weight_service();
        let outcome = service.update_weight_at(item_id, created_at, weight, caller, now);
        (Self::from_weight_service(service), render(outcome))
    }

    /// Gives a weight a new value, as updated at the current time:
    /// `update_weight_at` with what the clock says.
    pub fn update_weight(self, item_id: String, created_at: u64, weight: WeightValue, caller: Principal) -> (r: (
        Self,
        String,
    ))
        ensures
            r.0.batches() == self.batches(),
            r.0.grants() == self.grants(),
            if is_anonymous(caller@) {
                r.1@ == "Please login with Internet Identity to update weights"@ && r.0.weights() == self.weights()
            } else {
                match update_weight_refusal(self.weights(), self.grants(), item_id@, created_at, caller@) {
                    Some(e) => r.1@ == e.message_text() && r.0.weights() == self.weights(),
                    None => {
                        &&& r.1@ == "Weight updated successfully"@
                        &&& record_updated(
                            self.weights(),
                            r.0.weights(),
                            first_record(self.weights(), item_id@, created_at),
                            weight,
                        )
                    },
                }
            },
    {
        proof {
            if has_record(self.weights(), item_id@, created_at) {
                lemma_first_record_exists(self.weights(), item_id@, created_at);
            }
        }
        let now = self.clock.get_time();
        self.update_weight_at(item_id, created_at, weight, caller, now)
    }

    /// Soft-deletes a weight at `now`.
    pub fn delete_weight_at(self, item_id: String, created_at: u64, caller: Principal, now: u64) -> (r: (Self, String))
        ensures
            r.0.batches() == self.batches(),
            r.0.grants() == self.grants(),
            if is_anonymous(caller@) {
                r.1@ == "Please login with Internet Identity to delete weights"@ && r.0.weights() == self.weights()
            } else {
                match delete_weight_refusal(self.weights(), self.grants(), item_id@, created_at, caller@) {
                    Some(e) => r.1@ == e.message_text() && r.0.weights() == self.weights(),
                    None => {
                        &&& r.1@ == "Weight deleted successfully"@
                        &&& r.0.weights() == record_deleted_at(
                            self.weights(),
                            first_record(self.weights(), item_id@, created_at),
                            now,
                        )
                    },
                }
            },
    {
        if caller.is_anonymous() {
            return (self, "Please login with Internet Identity to delete weights".to_string());
        }
        let mut service = self.into_weight_service();
        let outcome = service.delete_weight_at(item_id, created_at, caller, now);
        (Self::from_weight_service(service), render(outcome))
    }

    /// Soft-deletes a weight at the current time: `delete_weight_at` with
    /// what the clock says.
    pub fn delete_weight(self, item_id: String, created_at: u64, caller: Principal) -> (r: (Self, String))
        ensures
            r.0.batches() == self.batches(),
            r.0.grants() == self.grants(),
            if is_anonymous(caller@) {
                r.1@ == "Please login with Internet Identity to delete weights"@ && r.0.weights() == self.weights()
            } else {
                match delete_weight_refusal(self.weights(), self.grants(), item_id@, created_at, caller@) {
                    Some(e) => r.1@ == e.message_text() && r.0.weights() == self.weights(),
                    None => {
                        &&& r.1@ == "Weight deleted successfully"@
                        &&& record_deleted(
                            self.weights(),
                            r.0.weights(),
                            first_record(self.weights(), item_id@, created_at),
                        )
                    },
                }
            },
    {
        proof {
            if has_record(self.weights(), item_id@, created_at) {
                lemma_first_record_exists(self.weights(), item_id@, created_at);
            }
        }
        let now = self.clock.get_time();
        self.delete_weight_at(item_id, created_at, caller, now)
    }

    /// Creates a batch at `now`, owned by the caller, and returns its
    /// identifier.
    pub fn create_batch_at(self, request: CreateBatchRequest, caller: Principal, now: u64) -> (r: (
        Self,
        Result<String, String>,
    ))
        ensures
            r.0.weights() == self.weights(),
            r.0.grants() == self.grants(),
            if is_anonymous(caller@) {
                &&& r.1 matches Err(text) && text@ == "Please login to create batches"@
                &&& r.0.batches() == self.batches()
            } else if blank(request@.name) {
                &&& r.1 matches Err(text) && text@ == TrackerError::EmptyName.message_text()
                &&& r.0.batches() == self.batches()
            } else {
                &&& r.1 matches Ok(id) && id@ == batch_id_at(now)
                &&& r.0.batches() == put_batch(self.batches(), new_batch(request@, caller@, now))
            },
    {
        if caller.is_anonymous() {
            return (self, Err("Please login to create batches".to_string()));
        }
        let mut service = self.into_batch_service();
        let outcome = match service.create_batch_at(request, caller, now) {
            Ok(id) => Ok(id),
            Err(e) => Err(e.message()),
        };
        (Self::from_batch_service(service), outcome)
    }

    /// Creates a batch at the current time, owned by the caller, and returns
    /// its identifier: `create_batch_at` with what the clock says.
    pub fn create_batch(self, request: CreateBatchRequest, caller: Principal) -> (r: (Self, Result<String, String>))
        ensures
            r.0.weights() == self.weights(),
            r.0.grants() == self.grants(),
            if is_anonymous(caller@) {
                &&& r.1 matches Err(text) && text@ == "Please login to create batches"@
                &&& r.0.batches() == self.batches()
            } else if blank(request@.name) {
                &&& r.1 matches Err(text) && text@ == TrackerError::EmptyName.message_text()
                &&& r.0.batches() == self.batches()
            } else {
                exists|now: u64|
                    {
                        &&& r.1 matches Ok(id) && id@ == #[trigger] batch_id_at(now)
                        &&& r.0.batches() == put_batch(self.batches(), new_batch(request@, caller@, now))
                    }
            },
    {
        let now = self.clock.get_time();
        self.create_batch_at(request, caller, now)
    }

    /// The batches that the caller owns or that are shared with the caller.
    pub fn get_batches(self, include_deleted: bool, caller: Principal) -> (r: (Self, Vec<BatchWithStats>))
        ensures
            r.0.same_as(&self),
            with_stats_views(r.1@) == if is_anonymous(caller@) {
                Seq::<BatchWithStatsView>::empty()
            } else {
                visible_batches(self.batches(), self.weights(), self.grants(), include_deleted, caller@)
            },
    {
        if caller.is_anonymous() {
            let none: Vec<BatchWithStats> = Vec::new();
            return (self, none);
        }
        let service = self.into_batch_service();
        let found = service.get_batches(include_deleted, caller);
        (Self::from_batch_service(service), found)
    }

    /// One batch with its statistics.
    pub fn get_batch(self, batch_id: &str, caller: Principal) -> (r: (Self, Result<BatchWithStats, String>))
        ensures
            r.0.same_as(&self),
            if is_anonymous(caller@) {
                r.1 matches Err(text) && text@ == "Please login to view batches"@
            } else {
                match get_batch_refusal(self.batches(), self.grants(), batch_id@, caller@) {
                    Some(e) => r.1 matches Err(text) && text@ == e.message_text(),
                    None => r.1 matches Ok(found) && found@ == with_stats(
                        self.batches(),
                        self.weights(),
                        batch_at(self.batches(), batch_id@),
                    ),
                }
            },
    {
        if caller.is_anonymous() {
            return (self, Err("Please login to view batches".to_string()));
        }
        let service = self.into_batch_service();
        let outcome = match service.get_batch(batch_id, caller) {
            Ok(found) => Ok(found),
            Err(e) => Err(e.message()),
        };
        (Self::from_batch_service(service), outcome)
    }

    /// Gives a batch a new name and description, as updated at `now`.
    pub fn update_batch_at(self, batch_id: &str, request: UpdateBatchRequest, caller: Principal, now: u64) -> (r: (
        Self,
        Result<(), String>,
    ))
        ensures
            r.0.weights() == self.weights(),
            r.0.grants() == self.grants(),
            if is_anonymous(caller@) {
                &&& r.1 matches Err(text) && text@ == "Please login to update batches"@
                &&& r.0.batches() == self.batches()
            } else {
                match update_batch_refusal(self.batches(), batch_id@, caller@) {
                    Some(e) => {
                        &&& r.1 matches Err(text) && text@ == e.message_text()
                        &&& r.0.batches() == self.batches()
                    },
                    None => {
                        &&& r.1 is Ok
                        &&& r.0.batches() == batch_renamed_at(
                            self.batches(),
                            batch_id@,
                            request@.name,
                            request@.description,
                            now,
                        )
                    },
                }
            },
    {
        if caller.is_anonymous() {
            return (self, Err("Please login to update batches".to_string()));
        }
        let mut service = self.into_batch_service();
        let outcome = match service.update_batch_at(batch_id, request, caller, now) {
            Ok(()) => Ok(()),
            Err(e) => Err(e.message()),
        };
        (Self::from_batch_service(service), outcome)
    }

    /// Gives a batch a new name and description, as updated at the current
    /// time: `update_batch_at` with what the clock says.
    pub fn update_batch(self, batch_id: &str, request: UpdateBatchRequest, caller: Principal) -> (r: (
        Self,
        Result<(), String>,
    ))
        ensures
            r.0.weights() == self.weights(),
            r.0.grants() == self.grants(),
            if is_anonymous(caller@) {
                &&& r.1 matches Err(text) && text@ == "Please login to update batches"@
                &&& r.0.batches() == self.batches()
            } else {
                match update_batch_refusal(self.batches(), batch_id@, caller@) {
                    Some(e) => {
                        &&& r.1 matches Err(text) && text@ == e.message_text()
                        &&& r.0.batches() == self.batches()
                    },
                    None => {
                        &&& r.1 is Ok
                        &&& batch_renamed(
                            self.batches(),
                            r.0.batches(),
                            batch_id@,
                            request@.name,
                            request@.description,
                        )
                    },
                }
            },
    {
        let now = self.clock.get_time();
        self.update_batch_at(batch_id, request, caller, now)
    }

    /// Soft-deletes a batch and its live weights, all at `now`.
    pub fn delete_batch_at(self, batch_id: &str, caller: Principal, now: u64) -> (r: (Self, Result<(), String>))
        ensures
            r.0.grants() == self.grants(),
            if is_anonymous(caller@) {
                &&& r.1 matches Err(text) && text@ == "Please login to delete batches"@
                &&& r.0.same_as(&self)
            } else {
                match delete_batch_refusal(self.batches(), batch_id@, caller@) {
                    Some(e) => {
                        &&& r.1 matches Err(text) && text@ == e.message_text()
                        &&& r.0.same_as(&self)
                    },
                    None => {
                        &&& r.1 is Ok
                        &&& r.0.batches() == batch_deleted_at(self.batches(), batch_id@, now)
                        &&& r.0.weights() == weights_cascaded_at(self.weights(), batch_id@, now)
                    },
                }
            },
    {
        if caller.is_anonymous() {
            return (self, Err("Please login to delete batches".to_string()));
        }
        let mut service = self.into_batch_service();
        let outcome = match service.delete_batch_at(batch_id, caller, now) {
            Ok(()) => Ok(()),
            Err(e) => Err(e.message()),
        };
        (Self::from_batch_service(service), outcome)
    }

    /// Soft-deletes a batch and its live weights, all at the current time:
    /// `delete_batch_at` with what the clock says.
    pub fn delete_batch(self, batch_id: &str, caller: Principal) -> (r: (Self, Result<(), String>))
        ensures
            r.0.grants() == self.grants(),
            if is_anonymous(caller@) {
                &&& r.1 matches Err(text) && text@ == "Please login to delete batches"@
                &&& r.0.same_as(&self)
            } else {
                match delete_batch_refusal(self.batches(), batch_id@, caller@) {
                    Some(e) => {
                        &&& r.1 matches Err(text) && text@ == e.message_text()
                        &&& r.0.same_as(&self)
                    },
                    None => {
                        &&& r.1 is Ok
                        &&& batch_deleted(self.batches(), r.0.batches(), batch_id@)
                        &&& weights_cascaded(self.weights(), r.0.weights(), batch_id@)
                    },
                }
            },
    {
        let now = self.clock.get_time();
        self.delete_batch_at(batch_id, caller, now)
    }

    /// Shares a batch of the caller with a collaborator.
    pub fn share_with_user(self, caller: Principal, collaborator: Principal, batch_id: String) -> (r: (Self, String))
        ensures
            r.0.weights() == self.weights(),
            r.0.batches() == self.batches(),
            if is_anonymous(caller@) {
                r.1@ == "Please login with Internet Identity to share data"@ && r.0.grants() == self.grants()
            } else {
                match share_refusal(self.batches(), self.grants(), caller@, collaborator@, batch_id@) {
                    Some(e) => r.1@ == e.message_text() && r.0.grants() == self.grants(),
                    None => {
                        &&& r.1@ == "Batch shared successfully with collaborator"@
                        &&& r.0.grants() == self.grants().insert(
                            Grant { owner: caller@, collaborator: collaborator@, batch_id: batch_id@ },
                        )
                    },
                }
            },
    {
        proof {
            use_type_invariant(&self);
        }
        if caller.is_anonymous() {
            return (self, "Please login with Internet Identity to share data".to_string());
        }
        let Tracker { weights, batches, access, clock } = self;
        let mut service = AccessControlService::new(access, batches);
        let outcome = service.share_with_user(caller, collaborator, batch_id);
        let (access, batches) = service.into_parts();
        (Tracker { weights, batches, access, clock }, render(outcome))
    }

    /// Takes back what the caller has shared with a collaborator.
    pub fn remove_sharing(self, caller: Principal, request: RemoveSharingRequest) -> (r: (Self, String))
        ensures
            r.0.weights() == self.weights(),
            r.0.batches() == self.batches(),
            if is_anonymous(caller@) {
                r.1@ == "Please login with Internet Identity to remove sharing"@ && r.0.grants() == self.grants()
            } else {
                &&& r.0.grants() == grants_after_removal(
                    self.batches(),
                    self.grants(),
                    caller@,
                    request.collaborator@,
                )
                &&& r.1@ == match removal_refusal(self.batches(), self.grants(), caller@, request.collaborator@) {
                    Some(e) => e.message_text(),
                    None => removal_text(
                        removal_count(self.batches(), self.grants(), caller@, request.collaborator@),
                    ),
                }
            },
    {
        proof {
            use_type_invariant(&self);
        }
        if caller.is_anonymous() {
            return (self, "Please login with Internet Identity to remove sharing".to_string());
        }
        let Tracker { weights, batches, access, clock } = self;
        let mut service = AccessControlService::new(access, batches);
        let outcome = service.remove_sharing(caller, request.collaborator);
        let (access, batches) = service.into_parts();
        (Tracker { weights, batches, access, clock }, render(outcome))
    }

    /// The principals with whom the caller has shared a batch, each once.
    /// An anonymous caller is answered like any other.
    pub fn get_collaborators(self, caller: Principal) -> (r: (Self, Vec<Principal>))
        ensures
            r.0.same_as(&self),
            principal_views(r.1@).no_duplicates(),
            forall|c: Seq<u8>| #[trigger]
                principal_views(r.1@).contains(c) <==> is_collaborator(self.grants(), caller@, c),
    {
        proof {
            use_type_invariant(&self);
        }
        let found = self.access.get_collaborators(caller);
        (self, found)
    }

    /// The live batches of the caller, each with its statistics.
    pub fn get_owned_batches(self, caller: Principal) -> (r: (Self, Vec<BatchWithStats>))
        ensures
            r.0.same_as(&self),
            with_stats_views(r.1@) == if is_anonymous(caller@) {
                Seq::<BatchWithStatsView>::empty()
            } else {
                owned_batches(self.batches(), self.weights(), caller@)
            },
    {
        if caller.is_anonymous() {
            let none: Vec<BatchWithStats> = Vec::new();
            return (self, none);
        }
        let service = self.into_batch_service();
        let found = service.get_owned_batches(caller);
        (Self::from_batch_service(service), found)
    }

    /// Identifier and name of each live batch of the caller that has a live
    /// weight.
    pub fn get_shareable_batches(self, caller: Principal) -> (r: (Self, Vec<ShareableBatch>))
        ensures
            r.0.same_as(&self),
            shareable_views(r.1@) == if is_anonymous(caller@) {
                Seq::<ShareableBatchView>::empty()
            } else {
                shareable_batches(self.batches(), self.weights(), caller@)
            },
    {
        if caller.is_anonymous() {
            let none: Vec<ShareableBatch> = Vec::new();
            return (self, none);
        }
        let service = self.into_batch_service();
        let found = service.get_shareable_batches(caller);
        (Self::from_batch_service(service), found)
    }

    /// The owner of a batch. Whoever asks is answered.
    pub fn get_batch_owner(self, batch_id: &str) -> (r: (Self, Result<Principal, String>))
        ensures
            r.0.same_as(&self),
            match r.1 {
                Ok(owner) => has_batch(self.batches(), batch_id@) && owner@ == batch_at(self.batches(), batch_id@).owner,
                Err(text) => !has_batch(self.batches(), batch_id@) && text@ == TrackerError::BatchNotFound.message_text(),
            },
    {
        let service = self.into_batch_service();
        let outcome = match service.get_batch_owner(batch_id) {
            Ok(owner) => Ok(owner),
            Err(e) => Err(e.message()),
        };
        (Self::from_batch_service(service), outcome)
    }

    /// The values of the live weights of a batch, in store order.
    pub fn live_values(self, batch_id: &str) -> (r: (Self, Vec<WeightValue>))
        ensures
            r.0.same_as(&self),
            r.1@ == live_weight_values(self.weights(), batch_id@),
    {
        let service = self.into_batch_service();
        let found = service.live_values(batch_id);
        (Self::from_batch_service(service), found)
    }
}

} // verus!
