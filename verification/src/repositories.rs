//! The stores: weights, batches and sharing grants, each held in memory in
//! the order in which its entries were first stored.

use vstd::prelude::*;
use crate::errors::TrackerError;
use crate::models::{
    access_views, batch_views, opt_text, text_views, weight_views, Batch, BatchView,
    CollaboratorAccess, CollaboratorAccessView, Grant, SharingPermissions, SharingPermissionsView,
    Weight, WeightKey, WeightView,
};
use crate::principal::Principal;
use crate::sharing::{
    grant, grant_at, granted, grants_before, grants_of, lemma_absent_collaborator,
    lemma_absent_owner, lemma_drop_entry, lemma_granted_at, lemma_granted_elim, lemma_granted_intro,
    lemma_grants_before_end, lemma_grants_before_entry_end, lemma_grants_before_next,
    lemma_grants_before_owner_end, lemma_grants_before_start, lemma_nothing_to_drop,
    lemma_present_owner, lemma_share_new_batch, lemma_share_new_collaborator, lemma_share_new_owner,
    sharing_wf, single_entry,
};
use crate::traits::{
    batches_wf, has_batch, has_weight, is_collaborator, lemma_batch_index, lemma_put_batch_wf,
    lemma_put_weight_wf, lemma_weight_index, principal_views, put_batches, put_weights,
    weight_selected, weights_wf, AccessControl, BatchRepository, TimeProvider, WeightRepository,
};
use crate::value::WeightValue;

verus! {

/// The store of weight records.
pub struct WeightStorageImpl<T: TimeProvider> {
    storage: Vec<Weight>,
    time_provider: T,
}

impl<T: TimeProvider> WeightStorageImpl<T> {
    /// An empty store that reads the given clock.
    pub fn new(time_provider: T) -> (r: Self)
        ensures
            r.entries() == Seq::<WeightView>::empty(),
            weights_wf(r.entries()),
    {
        let r = WeightStorageImpl { storage: Vec::new(), time_provider };
        r
    }

    /// A store that holds the given records, each stored in turn under its
    /// identity: of two records with one identity the later one stays.
    pub fn with_storage(storage: Vec<Weight>, time_provider: T) -> (r: Self)
        ensures
            r.entries() == put_weights(Seq::<WeightView>::empty(), weight_views(storage@)),
            weights_wf(r.entries()),
    {
        let mut r = WeightStorageImpl::new(time_provider);
        let mut i: usize = 0;
        while i < storage.len()
            invariant
                i <= storage.len(),
                weights_wf(r.entries()),
                r.entries() == put_weights(Seq::<WeightView>::empty(), weight_views(storage@).take(i as int)),
            decreases storage.len() - i,
        {
            let weight = storage[i].clone();
            let key = weight.key();
            proof {
                let items = weight_views(storage@);
                assert(items.take(i + 1).drop_last() =~= items.take(i as int));
            }
            let _ = r.create(key, weight);
            i += 1;
        }
        assert(weight_views(storage@).take(storage.len() as int) =~= weight_views(storage@));
        r
    }

    /// The position of the record with the given identity.
    fn position(&self, key: &WeightKey) -> (r: Option<usize>)
        ensures
            match r {
                Some(i) => i < self.entries().len() && self.entries()[i as int].key() == key@,
                None => !has_weight(self.entries(), key@),
            },
    {
        let mut i: usize = 0;
        while i < self.storage.len()
            invariant
                i <= self.storage.len(),
                forall|k: int| 0 <= k < i ==> (#[trigger] self.entries()[k]).key() != key@,
            decreases self.storage.len() - i,
        {
            let w = &self.storage[i];
            if w.owner == key.owner && w.item_id == key.item_id && w.created_at == key.created_at {
                return Some(i);
            }
            i += 1;
        }
        None
    }
}

impl<T: TimeProvider> WeightRepository for WeightStorageImpl<T> {
    closed spec fn entries(&self) -> Seq<WeightView> {
        weight_views(self.storage@)
    }

    fn create(&mut self, key: WeightKey, weight: Weight) -> (r: Result<(), TrackerError>) {
        proof {
            lemma_put_weight_wf(self.entries(), weight@);
        }
        match self.position(&key) {
            Some(i) => {
                proof {
                    lemma_weight_index(self.entries(), key@, i as int);
                }
                self.storage[i] = weight;
                assert(self.entries() =~= old(self).entries().update(i as int, weight@));
            },
            None => {
                self.storage.push(weight);
            },
        }
        Ok(())
    }

    fn get_all(&self, batch_id: Option<String>, include_deleted: bool) -> (r: Vec<Weight>) {
        let mut out: Vec<Weight> = Vec::new();
        let ghost pred = |w: WeightView| weight_selected(w, opt_text(batch_id), include_deleted);
        let mut i: usize = 0;
        while i < self.storage.len()
            invariant
                i <= self.storage.len(),
                pred == |w: WeightView| weight_selected(w, opt_text(batch_id), include_deleted),
                weight_views(out@) == self.entries().take(i as int).filter(pred),
            decreases self.storage.len() - i,
        {
            let w = &self.storage[i];
            let in_batch = match &batch_id {
                Some(id) => w.batch_id == *id,
                None => true,
            };
            let keep = in_batch && (include_deleted || w.deleted_at.is_none());
            proof {
                let entries = self.entries();
                assert(entries.take(i + 1) =~= entries.take(i as int).push(w@));
                entries.take(i as int).lemma_filter_push(w@, pred);
            }
            if keep {
                out.push(w.clone());
            }
            i += 1;
        }
        assert(self.entries().take(self.storage.len() as int) =~= self.entries());
        out
    }

    fn update_at(&mut self, key: WeightKey, new_weight: WeightValue, now: u64) -> (r: Result<(), TrackerError>) {
        match self.position(&key) {
            Some(i) => {
                proof {
                    lemma_weight_index(self.entries(), key@, i as int);
                }
                self.storage[i].weight = new_weight;
                self.storage[i].updated_at = now;
                proof {
                    let before = old(self).entries();
                    assert(self.entries() =~= before.update(i as int, before[i as int].with_value(new_weight, now)));
                }
                Ok(())
            },
            None => Err(TrackerError::WeightNotFound),
        }
    }

    fn delete_at(&mut self, key: WeightKey, now: u64) -> (r: Result<(), TrackerError>) {
        match self.position(&key) {
            Some(i) => {
                proof {
                    lemma_weight_index(self.entries(), key@, i as int);
                }
                self.storage[i].deleted_at = Some(now);
                proof {
                    let before = old(self).entries();
                    assert(self.entries() =~= before.update(i as int, before[i as int].deleted(now)));
                }
                Ok(())
            },
            None => Err(TrackerError::WeightNotFound),
        }
    }

    fn update(&mut self, key: WeightKey, new_weight: WeightValue) -> (r: Result<(), TrackerError>) {
        let now = self.time_provider.get_time();
        self.update_at(key, new_weight, now)
    }

    fn delete(&mut self, key: WeightKey) -> (r: Result<(), TrackerError>) {
        let now = self.time_provider.get_time();
        self.delete_at(key, now)
    }
}

/// The store of batches.
pub struct BatchStorageImpl<T: TimeProvider> {
    storage: Vec<Batch>,
    time_provider: T,
}

impl<T: TimeProvider> BatchStorageImpl<T> {
    /// An empty store that reads the given clock.
    pub fn new(time_provider: T) -> (r: Self)
        ensures
            r.entries() == Seq::<BatchView>::empty(),
            batches_wf(r.entries()),
    {
        let r = BatchStorageImpl { storage: Vec::new(), time_provider };
        r
    }

    /// A store that holds the given batches, each stored in turn under its
    /// identifier: of two batches with one identifier the later one stays.
    pub fn with_storage(storage: Vec<Batch>, time_provider: T) -> (r: Self)
        ensures
            r.entries() == put_batches(Seq::<BatchView>::empty(), batch_views(storage@)),
            batches_wf(r.entries()),
    {
        let mut r = BatchStorageImpl::new(time_provider);
        let mut i: usize = 0;
        while i < storage.len()
            invariant
                i <= storage.len(),
                batches_wf(r.entries()),
                r.entries() == put_batches(Seq::<BatchView>::empty(), batch_views(storage@).take(i as int)),
            decreases storage.len() - i,
        {
            let batch = storage[i].clone();
            proof {
                let items = batch_views(storage@);
                assert(items.take(i + 1).drop_last() =~= items.take(i as int));
            }
            let _ = r.create(batch);
            i += 1;
        }
        assert(batch_views(storage@).take(storage.len() as int) =~= batch_views(storage@));
        r
    }

    /// The position of the batch with the given identifier.
    fn position(&self, id: &String) -> (r: Option<usize>)
        ensures
            match r {
                Some(i) => i < self.entries().len() && self.entries()[i as int].id == id@,
                None => !has_batch(self.entries(), id@),
            },
    {
        let mut i: usize = 0;
        while i < self.storage.len()
            invariant
                i <= self.storage.len(),
                forall|k: int| 0 <= k < i ==> (#[trigger] self.entries()[k]).id != id@,
            decreases self.storage.len() - i,
        {
            let b = &self.storage[i];
            if b.id == *id {
                return Some(i);
            }
            i += 1;
        }
        None
    }
}

impl<T: TimeProvider> BatchRepository for BatchStorageImpl<T> {
    closed spec fn entries(&self) -> Seq<BatchView> {
        batch_views(self.storage@)
    }

    fn create(&mut self, batch: Batch) -> (r: Result<String, TrackerError>) {
        proof {
            lemma_put_batch_wf(self.entries(), batch@);
        }
        let id = batch.id.clone();
        match self.position(&id) {
            Some(i) => {
                proof {
                    lemma_batch_index(self.entries(), id@, i as int);
                }
                self.storage[i] = batch;
                assert(self.entries() =~= old(self).entries().update(i as int, batch@));
            },
            None => {
                self.storage.push(batch);
            },
        }
        Ok(id)
    }

    fn get(&self, id: &str) -> (r: Option<Batch>) {
        let key = id.to_owned();
        match self.position(&key) {
            Some(i) => {
                proof {
                    lemma_batch_index(self.entries(), id@, i as int);
                }
                Some(self.storage[i].clone())
            },
            None => None,
        }
    }

    fn get_all(&self, include_deleted: bool) -> (r: Vec<Batch>) {
        let mut out: Vec<Batch> = Vec::new();
        let ghost pred = |b: BatchView| include_deleted || b.live();
        let mut i: usize = 0;
        while i < self.storage.len()
            invariant
                i <= self.storage.len(),
                pred == |b: BatchView| include_deleted || b.live(),
                batch_views(out@) == self.entries().take(i as int).filter(pred),
            decreases self.storage.len() - i,
        {
            let b = &self.storage[i];
            let keep = include_deleted || b.deleted_at.is_none();
            proof {
                let entries = self.entries();
                assert(entries.take(i + 1) =~= entries.take(i as int).push(b@));
                entries.take(i as int).lemma_filter_push(b@, pred);
            }
            if keep {
                out.push(b.clone());
            }
            i += 1;
        }
        assert(self.entries().take(self.storage.len() as int) =~= self.entries());
        out
    }

    fn update_at(&mut self, id: &str, name: String, description: Option<String>, now: u64) -> (r: Result<
        (),
        TrackerError,
    >) {
        let key = id.to_owned();
        match self.position(&key) {
            Some(i) => {
                proof {
                    lemma_batch_index(self.entries(), id@, i as int);
                }
                let ghost name_view = name@;
                let ghost description_view = opt_text(description);
                self.storage[i].name = name;
                self.storage[i].description = description;
                self.storage[i].updated_at = now;
                proof {
                    let before = old(self).entries();
                    assert(self.entries() =~= before.update(
                        i as int,
                        before[i as int].renamed(name_view, description_view, now),
                    ));
                }
                Ok(())
            },
            None => Err(TrackerError::BatchNotFound),
        }
    }

    fn delete_at(&mut self, id: &str, now: u64) -> (r: Result<(), TrackerError>) {
        let key = id.to_owned();
        match self.position(&key) {
            Some(i) => {
                proof {
                    lemma_batch_index(self.entries(), id@, i as int);
                }
                if self.storage[i].deleted_at.is_some() {
                    return Err(TrackerError::BatchAlreadyDeleted);
                }
                self.storage[i].deleted_at = Some(now);
                proof {
                    let before = old(self).entries();
                    assert(self.entries() =~= before.update(i as int, before[i as int].deleted(now)));
                }
                Ok(())
            },
            None => Err(TrackerError::BatchNotFound),
        }
    }

    fn update(&mut self, id: &str, name: String, description: Option<String>) -> (r: Result<(), TrackerError>) {
        let now = self.time_provider.get_time();
        self.update_at(id, name, description, now)
    }

    fn delete(&mut self, id: &str) -> (r: Result<(), TrackerError>) {
        let now = self.time_provider.get_time();
        self.delete_at(id, now)
    }
}

/// The views of a list of permissions.
pub open spec fn permission_views(permissions: Seq<SharingPermissions>) -> Seq<SharingPermissionsView> {
    permissions.map_values(|p: SharingPermissions| p@)
}

/// The position of the collaborator's entry.
fn find_collaborator(entries: &Vec<CollaboratorAccess>, collaborator: &Principal) -> (r: Option<usize>)
    ensures
        match r {
            Some(j) => j < entries@.len() && entries@[j as int]@.collaborator == collaborator@,
            None => forall|j: int|
                0 <= j < entries@.len() ==> (#[trigger] access_views(entries@)[j]).collaborator != collaborator@,
        },
{
    let mut j: usize = 0;
    while j < entries.len()
        invariant
            j <= entries.len(),
            forall|k: int| 0 <= k < j ==> (#[trigger] access_views(entries@)[k]).collaborator != collaborator@,
        decreases entries.len() - j,
    {
        if entries[j].collaborator == *collaborator {
            return Some(j);
        }
        j += 1;
    }
    None
}

/// Whether the texts hold the given one.
fn holds_text(texts: &Vec<String>, text: &String) -> (r: bool)
    ensures
        r == text_views(texts@).contains(text@),
{
    let mut k: usize = 0;
    while k < texts.len()
        invariant
            k <= texts.len(),
            forall|t: int| 0 <= t < k ==> (#[trigger] text_views(texts@)[t]) != text@,
        decreases texts.len() - k,
    {
        if texts[k] == *text {
            assert(text_views(texts@)[k as int] == text@);
            return true;
        }
        k += 1;
    }
    false
}

/// A new entry for one collaborator and one batch.
fn first_entry(collaborator: Principal, batch_id: String) -> (r: CollaboratorAccess)
    ensures
        r@ == single_entry(collaborator@, batch_id@),
{
    let mut batch_ids: Vec<String> = Vec::new();
    batch_ids.push(batch_id);
    let r = CollaboratorAccess { collaborator, batch_ids };
    assert(r@.batch_ids =~= seq![batch_id@]);
    r
}

/// The store of sharing grants: for each owner who has shared something, the
/// collaborators and the batches shared with each.
pub struct AccessControlImpl {
    permissions: Vec<SharingPermissions>,
}

impl AccessControlImpl {
    /// The permissions, one entry for each owner who has shared something.
    pub closed spec fn permissions(&self) -> Seq<SharingPermissionsView> {
        permission_views(self.permissions@)
    }

    /// A store without grants.
    pub fn new() -> (r: Self)
        ensures
            r.wf(),
            r.grants() == Set::<Grant>::empty(),
    {
        let r = AccessControlImpl { permissions: Vec::new() };
        r
    }

    /// A store that holds the grants of the given permissions, each granted
    /// in turn: what the list names twice is held once.
    pub fn with_storage(storage: Vec<SharingPermissions>) -> (r: Self)
        ensures
            r.wf(),
            r.grants() == grants_of(permission_views(storage@)),
    {
        let mut r = AccessControlImpl::new();
        let ghost listed = permission_views(storage@);
        proof {
            lemma_grants_before_start(listed);
        }
        let mut a: usize = 0;
        while a < storage.len()
            invariant
                a <= storage.len(),
                listed == permission_views(storage@),
                r.wf(),
                r.grants() == grants_before(listed, a as int, 0, 0),
            decreases storage.len() - a,
        {
            let owner = storage[a].owner;
            let entries = &storage[a].shared_with;
            let mut b: usize = 0;
            while b < entries.len()
                invariant
                    a < storage.len(),
                    b <= entries.len(),
                    listed == permission_views(storage@),
                    listed[a as int].shared_with == access_views(entries@),
                    listed[a as int].owner == owner@,
                    r.wf(),
                    r.grants() == grants_before(listed, a as int, b as int, 0),
                decreases entries.len() - b,
            {
                let collaborator = entries[b].collaborator;
                let ids = &entries[b].batch_ids;
                let mut c: usize = 0;
                while c < ids.len()
                    invariant
                        a < storage.len(),
                        b < entries.len(),
                        c <= ids.len(),
                        listed == permission_views(storage@),
                        listed[a as int].shared_with == access_views(entries@),
                        listed[a as int].shared_with[b as int].batch_ids == text_views(ids@),
                        listed[a as int].owner == owner@,
                        listed[a as int].shared_with[b as int].collaborator == collaborator@,
                        r.wf(),
                        r.grants() == grants_before(listed, a as int, b as int, c as int),
                    decreases ids.len() - c,
                {
                    proof {
                        lemma_grants_before_next(listed, a as int, b as int, c as int);
                        assert(grant_at(listed, a as int, b as int, c as int) == grant(
                            owner@,
                            collaborator@,
                            ids@[c as int]@,
                        ));
                    }
                    let _ = r.share_access(owner, collaborator, ids[c].clone());
                    c += 1;
                }
                proof {
                    lemma_grants_before_entry_end(listed, a as int, b as int);
                }
                b += 1;
            }
            proof {
                lemma_grants_before_owner_end(listed, a as int);
            }
            a += 1;
        }
        proof {
            lemma_grants_before_end(listed);
        }
        r
    }

    /// The position of the owner's permissions.
    fn find_owner(&self, owner: &Principal) -> (r: Option<usize>)
        ensures
            match r {
                Some(i) => i < self.permissions().len() && self.permissions()[i as int].owner == owner@,
                None => forall|i: int|
                    0 <= i < self.permissions().len() ==> (#[trigger] self.permissions()[i]).owner != owner@,
            },
    {
        let mut i: usize = 0;
        while i < self.permissions.len()
            invariant
                i <= self.permissions.len(),
                forall|k: int| 0 <= k < i ==> (#[trigger] self.permissions()[k]).owner != owner@,
            decreases self.permissions.len() - i,
        {
            if self.permissions[i].owner == *owner {
                return Some(i);
            }
            i += 1;
        }
        None
    }
}

impl AccessControl for AccessControlImpl {
    closed spec fn grants(&self) -> Set<Grant> {
        grants_of(self.permissions())
    }

    closed spec fn wf(&self) -> bool {
        sharing_wf(self.permissions())
    }

    fn has_access(&self, data_owner: Principal, accessor: Principal, batch_id: Option<&str>) -> (r: bool) {
        if data_owner == accessor {
            return true;
        }
        let ghost perms = self.permissions();
        match self.find_owner(&data_owner) {
            None => {
                proof {
                    lemma_absent_owner(perms, data_owner@);
                }
                false
            },
            Some(i) => {
                let entries = &self.permissions[i].shared_with;
                match find_collaborator(entries, &accessor) {
                    None => {
                        proof {
                            lemma_absent_collaborator(perms, i as int, accessor@);
                        }
                        false
                    },
                    Some(j) => {
                        let ids = &entries[j].batch_ids;
                        match batch_id {
                            Some(id) => {
                                let key = id.to_owned();
                                proof {
                                    lemma_granted_at(perms, i as int, j as int, grant(data_owner@, accessor@, id@));
                                }
                                holds_text(ids, &key)
                            },
                            None => {
                                proof {
                                    let first = text_views(ids@)[0];
                                    lemma_granted_at(perms, i as int, j as int, grant(data_owner@, accessor@, first));
                                    assert(self.grants().contains(
                                        Grant { owner: data_owner@, collaborator: accessor@, batch_id: first },
                                    ));
                                }
                                ids.len() > 0
                            },
                        }
                    },
                }
            },
        }
    }

    fn share_access(&mut self, owner: Principal, collaborator: Principal, batch_id: String) -> (r: Result<
        (),
        TrackerError,
    >) {
        let ghost perms = self.permissions();
        match self.find_owner(&owner) {
            None => {
                proof {
                    lemma_share_new_owner(perms, owner@, collaborator@, batch_id@);
                }
                let entry = first_entry(collaborator, batch_id);
                let mut shared_with: Vec<CollaboratorAccess> = Vec::new();
                shared_with.push(entry);
                let fresh = SharingPermissions { owner, shared_with };
                assert(fresh@.shared_with =~= seq![single_entry(collaborator@, batch_id@)]);
                self.permissions.push(fresh);
                assert(self.permissions() =~= perms.push(fresh@));
            },
            Some(i) => {
                match find_collaborator(&self.permissions[i].shared_with, &collaborator) {
                    None => {
                        proof {
                            lemma_share_new_collaborator(perms, i as int, collaborator@, batch_id@);
                        }
                        let entry = first_entry(collaborator, batch_id);
                        self.permissions[i].shared_with.push(entry);
                        assert(self.permissions@[i as int]@.shared_with =~= perms[i as int].shared_with.push(entry@));
                        assert(self.permissions() =~= perms.update(
                            i as int,
                            SharingPermissionsView {
                                shared_with: perms[i as int].shared_with.push(
                                    single_entry(collaborator@, batch_id@),
                                ),
                                ..perms[i as int]
                            },
                        ));
                    },
                    Some(j) => {
                        assert(perms[i as int].shared_with[j as int].batch_ids == text_views(
                            self.permissions[i as int].shared_with[j as int].batch_ids@,
                        ));
                        if !holds_text(&self.permissions[i].shared_with[j].batch_ids, &batch_id) {
                            proof {
                                lemma_share_new_batch(perms, i as int, j as int, batch_id@);
                            }
                            self.permissions[i].shared_with[j].batch_ids.push(batch_id);
                            let ghost now_entries = self.permissions@[i as int].shared_with@;
                            assert(now_entries[j as int]@.batch_ids =~= perms[i as int].shared_with[j as int].batch_ids.push(
                                batch_id@,
                            ));
                            assert(self.permissions@[i as int]@.shared_with =~= perms[i as int].shared_with.update(
                                j as int,
                                CollaboratorAccessView {
                                    batch_ids: perms[i as int].shared_with[j as int].batch_ids.push(batch_id@),
                                    ..perms[i as int].shared_with[j as int]
                                },
                            ));
                            assert(self.permissions() =~= perms.update(
                                i as int,
                                SharingPermissionsView {
                                    shared_with: perms[i as int].shared_with.update(
                                        j as int,
                                        CollaboratorAccessView {
                                            batch_ids: perms[i as int].shared_with[j as int].batch_ids.push(batch_id@),
                                            ..perms[i as int].shared_with[j as int]
                                        },
                                    ),
                                    ..perms[i as int]
                                },
                            ));
                        } else {
                            proof {
                                let g = grant(owner@, collaborator@, batch_id@);
                                lemma_granted_intro(perms, i as int, j as int, g);
                            }
                        }
                    },
                }
            },
        }
        Ok(())
    }

    fn remove_access(&mut self, owner: Principal, collaborator: Principal) -> (r: Result<(), TrackerError>) {
        let ghost perms = self.permissions();
        match self.find_owner(&owner) {
            None => {
                proof {
                    lemma_absent_owner(perms, owner@);
                }
                Err(TrackerError::NoSharingFound)
            },
            Some(i) => {
                proof {
                    lemma_present_owner(perms, i as int);
                }
                match find_collaborator(&self.permissions[i].shared_with, &collaborator) {
                    Some(j) => {
                        proof {
                            lemma_drop_entry(perms, i as int, j as int);
                        }
                        self.permissions[i].shared_with.remove(j);
                        assert(self.permissions@[i as int]@.shared_with =~= perms[i as int].shared_with.remove(j as int));
                        if self.permissions[i].shared_with.len() == 0 {
                            self.permissions.remove(i);
                            assert(self.permissions() =~= perms.remove(i as int));
                        } else {
                            assert(self.permissions() =~= perms.update(
                                i as int,
                                SharingPermissionsView {
                                    shared_with: perms[i as int].shared_with.remove(j as int),
                                    ..perms[i as int]
                                },
                            ));
                        }
                    },
                    None => {
                        proof {
                            lemma_absent_collaborator(perms, i as int, collaborator@);
                            lemma_nothing_to_drop(perms, owner@, collaborator@);
                        }
                    },
                }
                Ok(())
            },
        }
    }

    fn get_collaborators(&self, owner: Principal) -> (r: Vec<Principal>) {
        let ghost perms = self.permissions();
        let mut out: Vec<Principal> = Vec::new();
        match self.find_owner(&owner) {
            None => {
                proof {
                    lemma_absent_owner(perms, owner@);
                }
            },
            Some(i) => {
                let entries = &self.permissions[i].shared_with;
                let ghost views = access_views(entries@);
                let mut k: usize = 0;
                while k < entries.len()
                    invariant
                        k <= entries.len(),
                        views == access_views(entries@),
                        out@.len() == k,
                        forall|t: int| 0 <= t < k ==> (#[trigger] principal_views(out@)[t]) == views[t].collaborator,
                    decreases entries.len() - k,
                {
                    let ghost before = out@;
                    out.push(entries[k].collaborator);
                    assert forall|t: int| 0 <= t < k + 1 implies (#[trigger] principal_views(out@)[t])
                        == views[t].collaborator by {
                        if t < k {
                            assert(principal_views(before)[t] == views[t].collaborator);
                        }
                    }
                    k += 1;
                }
                proof {
                    let listed = principal_views(out@);
                    assert forall|c: Seq<u8>| #[trigger]
                        listed.contains(c) <==> is_collaborator(self.grants(), owner@, c) by {
                        if listed.contains(c) {
                            let t = choose|t: int| 0 <= t < listed.len() && listed[t] == c;
                            let first = views[t].batch_ids[0];
                            lemma_granted_intro(perms, i as int, t, grant(owner@, c, first));
                            assert(self.grants().contains(Grant { owner: owner@, collaborator: c, batch_id: first }));
                        }
                        if is_collaborator(self.grants(), owner@, c) {
                            let id = choose|id: Seq<char>| #[trigger]
                                self.grants().contains(Grant { owner: owner@, collaborator: c, batch_id: id });
                            let g = grant(owner@, c, id);
                            let at = lemma_granted_elim(perms, g);
                            assert(listed[at.1] == c);
                        }
                    }
                }
            },
        }
        out
    }
}

} // verus!
