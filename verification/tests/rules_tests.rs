use weight_tracker_backend::errors::TrackerError;
use weight_tracker_backend::models::{
    BatchStats, CreateBatchRequest, CreateWeightRequest, UpdateBatchRequest, Weight, WeightKey,
};
use weight_tracker_backend::principal::Principal;
use weight_tracker_backend::repositories::{AccessControlImpl, BatchStorageImpl, WeightStorageImpl};
use weight_tracker_backend::services::{AccessControlService, BatchService, WeightService};
use weight_tracker_backend::traits::{AccessControl, TimeProvider, WeightRepository};
use weight_tracker_backend::value::WeightValue;

#[derive(Clone)]
struct FixedClock {
    time: u64,
}

impl TimeProvider for FixedClock {
    fn get_time(&self) -> u64 {
        self.time
    }
}

type Weights = WeightStorageImpl<FixedClock>;
type Batches = BatchStorageImpl<FixedClock>;

struct World {
    weights: Weights,
    batches: Batches,
    access: AccessControlImpl,
}

fn clock(time: u64) -> FixedClock {
    FixedClock { time }
}

fn world() -> World {
    World { weights: Weights::new(clock(7)), batches: Batches::new(clock(8)), access: AccessControlImpl::new() }
}

fn principal(text: &str) -> Principal {
    Principal::from_slice(candid::Principal::from_text(text).unwrap().as_slice()).unwrap()
}

fn alice() -> Principal {
    principal("rrkah-fqaaa-aaaaa-aaaaq-cai")
}

fn bob() -> Principal {
    principal("ryjl3-tyaaa-aaaaa-aaaba-cai")
}

fn carol() -> Principal {
    principal("renrk-eyaaa-aaaaa-aaada-cai")
}

fn value(x: f64) -> WeightValue {
    WeightValue::from_bits(x.to_bits())
}

fn number(v: WeightValue) -> f64 {
    f64::from_bits(v.to_bits())
}

fn mean(values: &[WeightValue]) -> f64 {
    let sum: f64 = values.iter().map(|v| number(*v)).sum();
    sum / values.len() as f64
}

fn create_batch(w: World, name: &str, owner: Principal, now: u64) -> (World, Result<String, TrackerError>) {
    let mut service = BatchService::new(w.batches, w.weights, w.access, clock(now));
    let r = service.create_batch(CreateBatchRequest { name: name.to_string(), description: None }, owner);
    let (batches, weights, access, _) = service.into_parts();
    (World { weights, batches, access }, r)
}

fn create_weight(
    w: World,
    batch: &str,
    item: &str,
    x: f64,
    caller: Principal,
    now: u64,
) -> (World, Result<String, TrackerError>) {
    let mut service = WeightService::new(w.weights, w.batches, w.access, clock(now));
    let request = CreateWeightRequest {
        owner_override: None,
        batch_id: batch.to_string(),
        item_id: item.to_string(),
        weight: value(x),
    };
    let r = service.create_weight(request, caller);
    let (weights, batches, access, _) = service.into_parts();
    (World { weights, batches, access }, r)
}

fn share(w: World, owner: Principal, collaborator: Principal, batch: &str) -> (World, Result<String, TrackerError>) {
    let mut service = AccessControlService::new(w.access, w.batches);
    let r = service.share_with_user(owner, collaborator, batch.to_string());
    let (access, batches) = service.into_parts();
    (World { weights: w.weights, batches, access }, r)
}

fn unshare(w: World, caller: Principal, collaborator: Principal) -> (World, Result<String, TrackerError>) {
    let mut service = AccessControlService::new(w.access, w.batches);
    let r = service.remove_sharing(caller, collaborator);
    let (access, batches) = service.into_parts();
    (World { weights: w.weights, batches, access }, r)
}

fn batch_service(w: World) -> BatchService<Batches, Weights, AccessControlImpl, FixedClock> {
    BatchService::new(w.batches, w.weights, w.access, clock(9000))
}

fn weight_service(w: World) -> WeightService<Weights, Batches, AccessControlImpl, FixedClock> {
    WeightService::new(w.weights, w.batches, w.access, clock(9000))
}

#[test]
fn test_weight_value_bounds() {
    let (w, id) = create_batch(world(), "B", alice(), 1000);
    let id = id.unwrap();
    let accepted = [5e-324, 1.0e-310, 0.5, 100.0, 9999.999999999998, 10000.0];
    let mut w = w;
    let mut now = 2000;
    for x in accepted {
        let (next, r) = create_weight(w, &id, "item", x, alice(), now);
        assert_eq!(r, Ok("Weight created successfully".to_string()), "value {}", x);
        w = next;
        now += 1;
    }
    let invalid = [0.0, -0.0, -5e-324, -1.0, -10000.0, f64::NEG_INFINITY, f64::NAN, -f64::NAN];
    for x in invalid {
        let (next, r) = create_weight(w, &id, "item", x, alice(), now);
        assert_eq!(r, Err(TrackerError::InvalidValue), "value {}", x);
        w = next;
    }
    let too_large = [10000.000000000002, 10001.0, 1.0e300, f64::MAX, f64::INFINITY];
    for x in too_large {
        let (next, r) = create_weight(w, &id, "item", x, alice(), now);
        assert_eq!(r, Err(TrackerError::OutOfRange), "value {}", x);
        w = next;
    }
    let service = weight_service(w);
    let stored = service.get_weights(None, true, alice());
    assert_eq!(stored.len(), accepted.len());
    for (record, x) in stored.iter().zip(accepted.iter()) {
        assert_eq!(number(record.weight), *x);
        assert!(number(record.weight) > 0.0 && number(record.weight) <= 10000.0);
    }
}

#[test]
fn test_create_weight_checks_in_order() {
    let (w, id) = create_batch(world(), "B", alice(), 1000);
    let id = id.unwrap();
    let (w, r) = create_weight(w, "missing", "  ", -1.0, bob(), 1);
    assert_eq!(r, Err(TrackerError::InvalidValue));
    let (w, r) = create_weight(w, "missing", "  ", 20000.0, bob(), 1);
    assert_eq!(r, Err(TrackerError::OutOfRange));
    let (w, r) = create_weight(w, "missing", " \t ", 1.0, bob(), 1);
    assert_eq!(r, Err(TrackerError::EmptyItemId));
    let (w, r) = create_weight(w, "missing", "item", 1.0, bob(), 1);
    assert_eq!(r, Err(TrackerError::InvalidBatchId));
    let (w, r) = create_weight(w, &id, "item", 1.0, bob(), 1);
    assert_eq!(r, Err(TrackerError::CannotAddWeights));
    assert_eq!(weight_service(w).get_weights(None, true, alice()).len(), 0);
}

#[test]
fn test_collaborator_writes_into_owners_batch() {
    let (w, id) = create_batch(world(), "B", alice(), 1000);
    let id = id.unwrap();
    let (w, r) = share(w, alice(), bob(), &id);
    assert_eq!(r, Ok("Batch shared successfully with collaborator".to_string()));
    let (w, r) = create_weight(w, &id, "i1", 12.5, bob(), 2000);
    assert!(r.is_ok());
    let service = weight_service(w);
    let seen_by_owner = service.get_weights(Some(id.clone()), false, alice());
    assert_eq!(seen_by_owner.len(), 1);
    assert_eq!(seen_by_owner[0].owner, alice());
    assert_eq!(seen_by_owner[0].batch_id, id);
    assert_eq!(service.get_weights(None, false, bob()).len(), 1);
    assert_eq!(service.get_weights(None, false, carol()).len(), 0);
}

#[test]
fn test_stats_follow_live_weights() {
    let (w, id) = create_batch(world(), "B", alice(), 1000);
    let id = id.unwrap();
    let (w, other) = create_batch(w, "Other", alice(), 1001);
    let other = other.unwrap();
    let (w, _) = create_weight(w, &id, "i1", 100.0, alice(), 2000);
    let service = batch_service(w);
    let found = service.get_batch(&id, alice()).unwrap();
    assert_eq!(found.stats, BatchStats { count: 1, min_weight: value(100.0), max_weight: value(100.0) });
    assert_eq!(mean(&service.live_values(&id)), 100.0);
    let (batches, weights, access, _) = service.into_parts();
    let w = World { weights, batches, access };

    let (w, _) = create_weight(w, &id, "i2", 40.0, alice(), 2001);
    let (w, _) = create_weight(w, &other, "i3", 7.0, alice(), 2002);
    let (w, _) = create_weight(w, &id, "i4", 250.0, alice(), 2003);
    let mut weights_service = weight_service(w);
    assert!(weights_service.delete_weight("i1".to_string(), 2000, alice()).is_ok());
    assert!(weights_service.update_weight("i2".to_string(), 2001, value(60.0), alice()).is_ok());
    let live = weights_service.get_weights(Some(id.clone()), false, alice()).len();
    let (weights, batches, access, _) = weights_service.into_parts();
    let service = batch_service(World { weights, batches, access });
    let stats = service.calculate_batch_stats(&id);
    assert_eq!(stats.count as usize, live);
    assert_eq!(stats, BatchStats { count: 2, min_weight: value(60.0), max_weight: value(250.0) });
    assert_eq!(mean(&service.live_values(&id)), 155.0);
    assert_eq!(service.calculate_batch_stats(&other).count, 1);
    assert_eq!(service.calculate_batch_stats("unknown"), BatchStats::empty());
}

#[test]
fn test_owner_always_has_access() {
    let mut access = AccessControlImpl::new();
    assert!(access.has_access(alice(), alice(), None));
    assert!(access.has_access(alice(), alice(), Some("b")));
    access.share_access(alice(), bob(), "b".to_string()).unwrap();
    access.share_access(bob(), alice(), "c".to_string()).unwrap();
    assert!(access.has_access(alice(), alice(), Some("zzz")));
    assert!(access.has_access(bob(), bob(), Some("b")));
    access.remove_access(alice(), bob()).unwrap();
    assert!(access.has_access(alice(), alice(), None));
    assert!(access.has_access(Principal::anonymous(), Principal::anonymous(), Some("b")));
}

#[test]
fn test_deleted_weights_in_listings() {
    let mut weights = Weights::new(clock(555));
    for (i, batch) in ["a", "b", "a"].iter().enumerate() {
        let item = format!("item{}", i);
        weights
            .create(
                WeightKey { owner: alice(), item_id: item.clone(), created_at: i as u64 },
                Weight {
                    owner: alice(),
                    batch_id: batch.to_string(),
                    item_id: item,
                    weight: value(1.0 + i as f64),
                    created_at: i as u64,
                    updated_at: i as u64,
                    deleted_at: None,
                },
            )
            .unwrap();
    }
    weights.delete(WeightKey { owner: alice(), item_id: "item2".to_string(), created_at: 2 }).unwrap();
    for filter in [None, Some("a".to_string())] {
        let live = weights.get_all(filter.clone(), false);
        assert!(live.iter().all(|w| w.deleted_at.is_none()));
        assert!(!live.iter().any(|w| w.item_id == "item2"));
        let first = weights.get_all(filter.clone(), true);
        let second = weights.get_all(filter.clone(), true);
        let hit: Vec<&Weight> = first.iter().filter(|w| w.item_id == "item2").collect();
        assert_eq!(hit.len(), 1);
        assert_eq!(hit[0].deleted_at, Some(555));
        let again: Vec<&Weight> = second.iter().filter(|w| w.item_id == "item2").collect();
        assert_eq!(again[0].deleted_at, Some(555));
        assert_eq!(first.len(), second.len());
    }
    assert_eq!(weights.get_all(Some("b".to_string()), true).len(), 1);
}

#[test]
fn test_sharing_is_per_batch() {
    let (w, a) = create_batch(world(), "A", alice(), 1000);
    let (w, b) = create_batch(w, "B", alice(), 1001);
    let (a, b) = (a.unwrap(), b.unwrap());
    let (w, r) = share(w, alice(), bob(), &a);
    assert!(r.is_ok());
    assert!(w.access.has_access(alice(), bob(), Some(a.as_str())));
    assert!(!w.access.has_access(alice(), bob(), Some(b.as_str())));
    assert!(w.access.has_access(alice(), bob(), None));
    let service = batch_service(w);
    assert!(service.get_batch(&a, bob()).is_ok());
    assert_eq!(service.get_batch(&b, bob()).unwrap_err(), TrackerError::CannotReadBatch);
    let seen: Vec<String> = service.get_batches(true, bob()).into_iter().map(|x| x.batch.id).collect();
    assert_eq!(seen, vec![a.clone()]);
    let (batches, weights, access, _) = service.into_parts();
    let (w, r) = create_weight(World { weights, batches, access }, &b, "i", 1.0, bob(), 5);
    assert_eq!(r, Err(TrackerError::CannotAddWeights));
    let (_, r) = create_weight(w, &a, "i", 1.0, bob(), 5);
    assert!(r.is_ok());
}

#[test]
fn test_share_then_remove_sharing() {
    let (w, id) = create_batch(world(), "B", alice(), 1000);
    let id = id.unwrap();
    let (w, r) = share(w, alice(), carol(), &id);
    assert!(r.is_ok());
    let service = batch_service(w);
    assert!(service.get_batch(&id, carol()).is_ok());
    let (batches, weights, access, _) = service.into_parts();
    let (w, r) = unshare(World { weights, batches, access }, alice(), carol());
    assert_eq!(r, Ok("Successfully removed sharing permissions for 1 batches".to_string()));
    let service = batch_service(w);
    assert_eq!(service.get_batch(&id, carol()).unwrap_err(), TrackerError::CannotReadBatch);
    assert_eq!(service.get_batch(&id, carol()).unwrap_err().message(), "Unauthorized access to batch");
    assert!(service.get_batch(&id, alice()).is_ok());
}

#[test]
fn test_delete_batch_twice_and_cascade() {
    let (w, id) = create_batch(world(), "B", alice(), 1000);
    let id = id.unwrap();
    let (w, other) = create_batch(w, "Other", alice(), 1001);
    let other = other.unwrap();
    let (w, _) = create_weight(w, &id, "i1", 1.0, alice(), 2000);
    let (w, _) = create_weight(w, &other, "i2", 2.0, alice(), 2001);
    let (w, _) = create_weight(w, &id, "i3", 3.0, alice(), 2002);
    let mut service = batch_service(w);
    assert_eq!(service.delete_batch(&id, alice()), Ok(()));
    assert_eq!(service.calculate_batch_stats(&id), BatchStats::empty());
    assert_eq!(service.delete_batch(&id, alice()), Err(TrackerError::BatchAlreadyDeleted));
    assert_eq!(service.get_batch(&id, alice()).unwrap().stats, BatchStats::empty());
    assert_eq!(service.get_batch(&other, alice()).unwrap().stats.count, 1);
    let (batches, weights, access, _) = service.into_parts();
    let all = weights.get_all(None, true);
    assert_eq!(all.len(), 3);
    for record in all.iter() {
        if record.batch_id == id {
            assert_eq!(record.deleted_at, Some(9000));
        } else {
            assert_eq!(record.deleted_at, None);
        }
    }
    let service = batch_service(World { weights, batches, access });
    let listed: Vec<String> = service.get_batches(false, alice()).into_iter().map(|b| b.batch.id).collect();
    assert_eq!(listed, vec![other.clone()]);
    assert_eq!(service.get_batches(true, alice()).len(), 2);
}

#[test]
fn test_share_twice_is_refused() {
    let (w, id) = create_batch(world(), "B", alice(), 1000);
    let id = id.unwrap();
    let (w, r) = share(w, alice(), bob(), &id);
    assert_eq!(r, Ok("Batch shared successfully with collaborator".to_string()));
    let (w, r) = share(w, alice(), bob(), &id);
    assert_eq!(r, Err(TrackerError::AlreadyShared));
    assert_eq!(r.unwrap_err().message(), "Batch is already shared with this user");
    assert_eq!(w.access.get_collaborators(alice()), vec![bob()]);
}

#[test]
fn test_share_checks_in_order() {
    let (w, id) = create_batch(world(), "B", alice(), 1000);
    let id = id.unwrap();
    let (w, r) = share(w, alice(), alice(), " ");
    assert_eq!(r, Err(TrackerError::SelfSharing));
    let (w, r) = share(w, alice(), Principal::anonymous(), " ");
    assert_eq!(r, Err(TrackerError::AnonymousCollaborator));
    let (w, r) = share(w, alice(), bob(), " \n");
    assert_eq!(r, Err(TrackerError::EmptyBatchId));
    let (w, r) = share(w, alice(), bob(), "missing");
    assert_eq!(r, Err(TrackerError::BatchNotFound));
    let (w, r) = share(w, carol(), bob(), &id);
    assert_eq!(r, Err(TrackerError::CannotShareBatch));
    let mut service = batch_service(w);
    service.delete_batch(&id, alice()).unwrap();
    let (batches, weights, access, _) = service.into_parts();
    let (w, r) = share(World { weights, batches, access }, alice(), bob(), &id);
    assert_eq!(r, Err(TrackerError::BatchDeleted));
    assert_eq!(w.access.get_collaborators(alice()), Vec::<Principal>::new());
}

#[test]
fn test_remove_sharing_outcomes() {
    let (w, a) = create_batch(world(), "A", alice(), 1000);
    let (w, b) = create_batch(w, "B", alice(), 1001);
    let (a, b) = (a.unwrap(), b.unwrap());
    let (w, r) = unshare(w, bob(), carol());
    assert_eq!(r, Err(TrackerError::CannotRemoveSharing));
    let (w, r) = unshare(w, alice(), carol());
    assert_eq!(r, Err(TrackerError::NoSharingWithCollaborator));
    let (w, _) = share(w, alice(), bob(), &a);
    let (w, _) = share(w, alice(), bob(), &b);
    let (w, _) = share(w, alice(), carol(), &b);
    let (w, r) = unshare(w, alice(), carol());
    assert_eq!(r, Ok("Successfully removed sharing permissions for 1 batches".to_string()));
    assert!(!w.access.has_access(alice(), carol(), Some(b.as_str())));
    assert!(w.access.has_access(alice(), bob(), Some(a.as_str())));
    let (w, r) = unshare(w, alice(), bob());
    assert_eq!(r, Ok("Successfully removed sharing permissions for 1 batches".to_string()));
    assert!(!w.access.has_access(alice(), bob(), Some(a.as_str())));
    assert!(!w.access.has_access(alice(), bob(), Some(b.as_str())));
    let (_, r) = unshare(w, alice(), bob());
    assert_eq!(r, Err(TrackerError::NoSharingWithCollaborator));
}

#[test]
fn test_remove_sharing_of_deleted_batch() {
    let (w, a) = create_batch(world(), "A", alice(), 1000);
    let (w, b) = create_batch(w, "B", alice(), 1001);
    let (a, _b) = (a.unwrap(), b.unwrap());
    let (w, _) = share(w, alice(), bob(), &a);
    let mut service = batch_service(w);
    service.delete_batch(&a, alice()).unwrap();
    let (batches, weights, access, _) = service.into_parts();
    let (w, r) = unshare(World { weights, batches, access }, alice(), bob());
    assert_eq!(r, Ok("No shared batches found to remove".to_string()));
    assert!(w.access.has_access(alice(), bob(), Some(a.as_str())));
    assert_eq!(w.access.get_collaborators(alice()), vec![bob()]);
}

#[test]
fn test_remove_sharing_with_oneself() {
    let (w, _) = create_batch(world(), "A", alice(), 1000);
    let (mut w, _) = create_batch(w, "B", alice(), 1001);
    w.access.share_access(alice(), alice(), "x".to_string()).unwrap();
    w.access.share_access(alice(), bob(), "y".to_string()).unwrap();
    let (mut w, r) = unshare(w, alice(), alice());
    assert_eq!(r, Ok("No shared batches found to remove".to_string()));
    assert_eq!(w.access.get_collaborators(alice()), vec![alice(), bob()]);

    w.access.remove_access(alice(), bob()).unwrap();
    let (w, r) = unshare(w, alice(), alice());
    assert_eq!(r, Ok("No shared batches found to remove".to_string()));
    assert_eq!(w.access.get_collaborators(alice()), vec![alice()]);
    assert!(w.access.has_access(alice(), alice(), Some("x")));
}

#[test]
fn test_remove_sharing_failure_changes_nothing() {
    let (w, a) = create_batch(world(), "A", alice(), 1000);
    let a = a.unwrap();
    let (w, _) = share(w, alice(), bob(), &a);
    let (w, r) = unshare(w, carol(), bob());
    assert_eq!(r, Err(TrackerError::CannotRemoveSharing));
    let (w, r) = unshare(w, alice(), carol());
    assert_eq!(r, Err(TrackerError::NoSharingWithCollaborator));
    assert!(w.access.has_access(alice(), bob(), Some(a.as_str())));
    assert_eq!(w.access.get_collaborators(alice()), vec![bob()]);
}

#[test]
fn test_remove_sharing_counts_one_for_two_batches() {
    let (w, a) = create_batch(world(), "A", alice(), 1000);
    let (w, b) = create_batch(w, "B", alice(), 1001);
    let (a, b) = (a.unwrap(), b.unwrap());
    let (w, _) = share(w, alice(), bob(), &a);
    let (w, _) = share(w, alice(), bob(), &b);
    let (w, r) = unshare(w, alice(), bob());
    assert_eq!(r, Ok("Successfully removed sharing permissions for 1 batches".to_string()));
    assert!(!w.access.has_access(alice(), bob(), Some(a.as_str())));
    assert!(!w.access.has_access(alice(), bob(), Some(b.as_str())));
}

#[test]
fn test_operations_at_a_given_time() {
    let (w, id) = create_batch(world(), "B", alice(), 1000);
    let id = id.unwrap();
    let (w, _) = create_weight(w, &id, "i1", 5.0, alice(), 2000);
    let (w, _) = create_weight(w, &id, "i2", 6.0, alice(), 2001);
    let mut service = weight_service(w);
    assert_eq!(
        service.update_weight_at("i1".to_string(), 2000, value(8.0), alice(), 31),
        Ok("Weight updated successfully".to_string())
    );
    assert_eq!(
        service.update_weight_at("i1".to_string(), 2000, value(8.0), bob(), 32),
        Err(TrackerError::CannotUpdateWeight)
    );
    assert_eq!(
        service.delete_weight_at("i2".to_string(), 2001, alice(), 33),
        Ok("Weight deleted successfully".to_string())
    );
    assert_eq!(service.delete_weight_at("i9".to_string(), 2001, alice(), 34), Err(TrackerError::WeightNotFound));
    let all = service.get_weights(None, true, alice());
    assert_eq!(number(all[0].weight), 8.0);
    assert_eq!(all[0].updated_at, 31);
    assert_eq!(all[0].created_at, 2000);
    assert_eq!(all[0].deleted_at, None);
    assert_eq!(all[1].deleted_at, Some(33));
    assert_eq!(all[1].updated_at, 2001);
    assert_eq!(number(all[1].weight), 6.0);

    let (weights, batches, access, _) = service.into_parts();
    let mut service = batch_service(World { weights, batches, access });
    let rename = UpdateBatchRequest { name: "Renamed".to_string(), description: Some("d".to_string()) };
    assert_eq!(service.update_batch_at(&id, rename.clone(), bob(), 40), Err(TrackerError::CannotUpdateBatch));
    assert_eq!(service.update_batch_at(&id, rename, alice(), 41), Ok(()));
    let found = service.get_batch(&id, alice()).unwrap();
    assert_eq!(found.batch.name, "Renamed");
    assert_eq!(found.batch.description, Some("d".to_string()));
    assert_eq!(found.batch.updated_at, 41);
    assert_eq!(found.batch.created_at, 1000);
    assert_eq!(service.delete_batch_at(&id, bob(), 50), Err(TrackerError::CannotDeleteBatch));
    assert_eq!(service.delete_batch_at(&id, alice(), 51), Ok(()));
    assert_eq!(service.delete_batch_at(&id, alice(), 52), Err(TrackerError::BatchAlreadyDeleted));
    let found = service.get_batch(&id, alice()).unwrap();
    assert_eq!(found.batch.deleted_at, Some(51));
    assert_eq!(found.batch.updated_at, 41);
    let (_, weights, _, _) = service.into_parts();
    let all = weights.get_all(None, true);
    assert_eq!(all[0].deleted_at, Some(51));
    assert_eq!(all[1].deleted_at, Some(33));
}

#[test]
fn test_batch_identifier_from_time() {
    let (w, first) = create_batch(world(), "First", alice(), 1000);
    assert_eq!(first, Ok("batch_1000".to_string()));
    let (w, second) = create_batch(w, "Second", bob(), 1000);
    assert_eq!(second, Ok("batch_1000".to_string()));
    let (w, third) = create_batch(w, "Third", alice(), 18446744073709551615);
    assert_eq!(third, Ok("batch_18446744073709551615".to_string()));
    let (w, blank) = create_batch(w, " \t", alice(), 5);
    assert_eq!(blank, Err(TrackerError::EmptyName));
    let service = batch_service(w);
    let all = service.get_batches(true, bob());
    assert_eq!(all.len(), 1);
    assert_eq!(all[0].batch.name, "Second");
    assert_eq!(all[0].batch.owner, bob());
    assert_eq!(all[0].batch.created_at, 1000);
    assert_eq!(all[0].batch.updated_at, 1000);
    assert_eq!(service.get_batch_owner("batch_1000"), Ok(bob()));
    assert_eq!(service.get_batch_owner("batch_5"), Err(TrackerError::BatchNotFound));
    assert_eq!(service.get_batches(true, alice()).len(), 1);
}

#[test]
fn test_owned_and_shareable_batches() {
    let (w, a) = create_batch(world(), "A", alice(), 1000);
    let (w, b) = create_batch(w, "B", alice(), 1001);
    let (w, c) = create_batch(w, "C", bob(), 1002);
    let (w, d) = create_batch(w, "D", alice(), 1003);
    let (a, b, c, d) = (a.unwrap(), b.unwrap(), c.unwrap(), d.unwrap());
    let (w, _) = create_weight(w, &b, "i1", 5.0, alice(), 2000);
    let (w, _) = create_weight(w, &c, "i2", 6.0, bob(), 2001);
    let (w, _) = create_weight(w, &d, "i3", 7.0, alice(), 2002);
    let mut service = batch_service(w);
    service.delete_batch(&d, alice()).unwrap();
    let owned = service.get_owned_batches(alice());
    let ids: Vec<&str> = owned.iter().map(|x| x.batch.id.as_str()).collect();
    assert_eq!(ids, vec![a.as_str(), b.as_str()]);
    assert_eq!(owned[0].stats, BatchStats::empty());
    assert_eq!(owned[1].stats, BatchStats { count: 1, min_weight: value(5.0), max_weight: value(5.0) });
    let shareable = service.get_shareable_batches(alice());
    assert_eq!(shareable.len(), 1);
    assert_eq!(shareable[0].id, b);
    assert_eq!(shareable[0].name, "B");
    assert_eq!(service.get_shareable_batches(carol()).len(), 0);
    assert_eq!(service.get_owned_batches(bob()).len(), 1);
}

#[test]
fn test_batch_rights_of_a_collaborator() {
    let (w, id) = create_batch(world(), "B", alice(), 1000);
    let id = id.unwrap();
    let (w, _) = share(w, alice(), bob(), &id);
    let mut service = batch_service(w);
    let rename = UpdateBatchRequest { name: "Mine".to_string(), description: None };
    assert_eq!(service.update_batch(&id, rename.clone(), bob()), Err(TrackerError::CannotUpdateBatch));
    assert_eq!(service.delete_batch(&id, bob()), Err(TrackerError::CannotDeleteBatch));
    assert_eq!(service.update_batch("missing", rename.clone(), alice()), Err(TrackerError::BatchNotFound));
    assert_eq!(service.delete_batch("missing", alice()), Err(TrackerError::BatchNotFound));
    assert_eq!(service.get_batch("missing", alice()).unwrap_err(), TrackerError::BatchNotFound);
    assert_eq!(service.update_batch(&id, rename, alice()), Ok(()));
    let found = service.get_batch(&id, bob()).unwrap();
    assert_eq!(found.batch.name, "Mine");
    assert_eq!(found.batch.updated_at, 9000);
}

#[test]
fn test_weight_rights() {
    let (w, id) = create_batch(world(), "B", alice(), 1000);
    let id = id.unwrap();
    let (w, _) = create_weight(w, &id, "i1", 5.0, alice(), 2000);
    let mut service = weight_service(w);
    assert_eq!(
        service.update_weight("i1".to_string(), 2000, value(6.0), bob()),
        Err(TrackerError::CannotUpdateWeight)
    );
    assert_eq!(service.delete_weight("i1".to_string(), 2000, bob()), Err(TrackerError::CannotDeleteWeight));
    assert_eq!(
        service.update_weight("i1".to_string(), 2001, value(6.0), alice()),
        Err(TrackerError::WeightNotFound)
    );
    assert_eq!(service.delete_weight("i2".to_string(), 2000, alice()), Err(TrackerError::WeightNotFound));
    assert_eq!(
        service.update_weight("i1".to_string(), 2000, value(-3.0), alice()),
        Ok("Weight updated successfully".to_string())
    );
    assert_eq!(service.delete_weight("i1".to_string(), 2000, alice()), Ok("Weight deleted successfully".to_string()));
    assert_eq!(service.delete_weight("i1".to_string(), 2000, alice()), Ok("Weight deleted successfully".to_string()));
    assert_eq!(
        service.update_weight("i1".to_string(), 2000, value(6.0), alice()),
        Err(TrackerError::WeightDeleted)
    );
    let all = service.get_weights(None, true, alice());
    assert_eq!(all.len(), 1);
    assert_eq!(number(all[0].weight), -3.0);
    assert_eq!(all[0].updated_at, 9000);
    assert_eq!(all[0].deleted_at, Some(9000));
}

#[test]
fn test_create_weight_at_given_time() {
    let (w, id) = create_batch(world(), "B", alice(), 1000);
    let id = id.unwrap();
    let mut service = weight_service(w);
    let request = CreateWeightRequest {
        owner_override: Some(bob()),
        batch_id: id.clone(),
        item_id: "i1".to_string(),
        weight: value(5.0),
    };
    assert!(service.create_weight_at(request.clone(), alice(), 42).is_ok());
    assert!(service.create_weight_at(request, alice(), 43).is_ok());
    let all = service.get_weights(Some(id), false, alice());
    assert_eq!(all.len(), 2);
    assert_eq!(all[0].created_at, 42);
    assert_eq!(all[1].created_at, 43);
    assert_eq!(all[0].owner, alice());
    let (weights, batches, access, _) = service.into_parts();
    let mut service = BatchService::new(batches, weights, access, clock(1));
    let made = service.create_batch_at(CreateBatchRequest { name: "N".to_string(), description: None }, bob(), 77);
    assert_eq!(made, Ok("batch_77".to_string()));
}
