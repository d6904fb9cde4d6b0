use weight_tracker_backend::models::{Batch, CreateWeightRequest, Weight, WeightKey};
use weight_tracker_backend::principal::Principal;
use weight_tracker_backend::repositories::{AccessControlImpl, BatchStorageImpl, WeightStorageImpl};
use weight_tracker_backend::services::WeightService;
use weight_tracker_backend::traits::{BatchRepository, TimeProvider, WeightRepository};
use weight_tracker_backend::value::WeightValue;

#[derive(Clone)]
struct FixedClock {
    time: u64,
}

impl TimeProvider for FixedClock {
    fn get_time(&self) -> u64 {
        self.time
    }
}

type Service = WeightService<WeightStorageImpl<FixedClock>, BatchStorageImpl<FixedClock>, AccessControlImpl, FixedClock>;

fn owner() -> Principal {
    Principal::from_slice(candid::Principal::from_text("rrkah-fqaaa-aaaaa-aaaaq-cai").unwrap().as_slice()).unwrap()
}

fn value(x: f64) -> WeightValue {
    WeightValue::from_bits(x.to_bits())
}

fn number(v: WeightValue) -> f64 {
    f64::from_bits(v.to_bits())
}

fn service_with_record(now: u64, item_id: &str, created_at: u64) -> Service {
    let clock = FixedClock { time: now };
    let mut batches = BatchStorageImpl::new(clock.clone());
    batches
        .create(Batch {
            id: "batch1".to_string(),
            name: "Batch".to_string(),
            owner: owner(),
            description: None,
            created_at: 1,
            updated_at: 1,
            deleted_at: None,
        })
        .unwrap();
    let mut weights = WeightStorageImpl::new(clock.clone());
    weights
        .create(
            WeightKey { owner: owner(), item_id: item_id.to_string(), created_at },
            Weight {
                owner: owner(),
                batch_id: "batch1".to_string(),
                item_id: item_id.to_string(),
                weight: value(75.5),
                created_at,
                updated_at: created_at,
                deleted_at: None,
            },
        )
        .unwrap();
    WeightService::new(weights, batches, AccessControlImpl::new(), clock)
}

#[test]
fn test_create_weight() {
    let request = CreateWeightRequest {
        batch_id: "batch1".to_string(),
        item_id: "ITEM001".to_string(),
        weight: value(75.5),
        owner_override: None,
    };
    let mut service = service_with_record(5000, "OTHER", 1);
    let result = service.create_weight(request, owner());
    assert_eq!(result, Ok("Weight created successfully".to_string()));
    let weights = service.get_weights(Some("batch1".to_string()), false, owner());
    assert_eq!(weights.len(), 2);
    assert_eq!(weights[1].item_id, "ITEM001");
    assert_eq!(number(weights[1].weight), 75.5);
    assert_eq!(weights[1].created_at, 5000);
    assert_eq!(weights[1].updated_at, 5000);
    assert_eq!(weights[1].deleted_at, None);
    assert_eq!(weights[1].owner, owner());
}

#[test]
fn test_update_weight() {
    let item_id = "ITEM001";
    let created_at = 123456789;
    let new_weight = 80.5;
    let mut service = service_with_record(5000, item_id, created_at);
    let result = service.update_weight(item_id.to_string(), created_at, value(new_weight), owner());
    assert_eq!(result, Ok("Weight updated successfully".to_string()));
    let weights = service.get_weights(None, true, owner());
    assert_eq!(weights.len(), 1);
    assert_eq!(number(weights[0].weight), 80.5);
    assert_eq!(weights[0].created_at, 123456789);
    assert_eq!(weights[0].updated_at, 5000);
    assert_eq!(weights[0].deleted_at, None);
}

#[test]
fn test_delete_weight() {
    let item_id = "ITEM001";
    let created_at = 123456789;
    let mut service = service_with_record(5000, item_id, created_at);
    let result = service.delete_weight(item_id.to_string(), created_at, owner());
    assert_eq!(result, Ok("Weight deleted successfully".to_string()));
    assert_eq!(service.get_weights(None, false, owner()).len(), 0);
    let weights = service.get_weights(None, true, owner());
    assert_eq!(weights.len(), 1);
    assert_eq!(weights[0].deleted_at, Some(5000));
    assert_eq!(number(weights[0].weight), 75.5);
}
