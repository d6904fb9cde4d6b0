use weight_tracker_backend::models::{CreateBatchRequest, CreateWeightRequest, UpdateBatchRequest};
use weight_tracker_backend::principal::Principal;
use weight_tracker_backend::repositories::{AccessControlImpl, BatchStorageImpl, WeightStorageImpl};
use weight_tracker_backend::services::{AccessControlService, BatchService, WeightService};
use weight_tracker_backend::traits::TimeProvider;
use weight_tracker_backend::value::WeightValue;

#[derive(Clone)]
struct FixedClock {
    time: u64,
}

impl TimeProvider for FixedClock {
    fn get_time(&self) -> u64 {
        self.time
    }
}

type Batches = BatchService<BatchStorageImpl<FixedClock>, WeightStorageImpl<FixedClock>, AccessControlImpl, FixedClock>;

fn principal(text: &str) -> Principal {
    Principal::from_slice(candid::Principal::from_text(text).unwrap().as_slice()).unwrap()
}

fn value(x: f64) -> WeightValue {
    WeightValue::from_bits(x.to_bits())
}

fn number(v: WeightValue) -> f64 {
    f64::from_bits(v.to_bits())
}

fn mean(values: &[WeightValue]) -> f64 {
    let sum: f64 = values.iter().map(|v| number(*v)).sum();
    sum / values.len() as f64
}

fn setup_test_env() -> Batches {
    let clock = FixedClock { time: 1_700_000_000 };
    BatchService::new(
        BatchStorageImpl::new(clock.clone()),
        WeightStorageImpl::new(clock.clone()),
        AccessControlImpl::new(),
        clock,
    )
}

#[test]
fn test_batch_creation_and_retrieval() {
    let mut service = setup_test_env();
    let test_principal = principal("2vxsx-fae");

    let batch_request = CreateBatchRequest {
        name: "Test Batch".to_string(),
        description: Some("Test Description".to_string()),
    };
    let batch_id = service.create_batch(batch_request, test_principal).unwrap();

    let batch = service.get_batch(&batch_id, test_principal).unwrap();
    assert_eq!(batch.batch.name, "Test Batch");
    assert_eq!(batch.batch.description, Some("Test Description".to_string()));
}

#[test]
fn test_batch_update() {
    let mut service = setup_test_env();
    let test_principal = principal("2vxsx-fae");

    let batch_request = CreateBatchRequest { name: "Original Name".to_string(), description: None };
    let batch_id = service.create_batch(batch_request, test_principal).unwrap();

    let update_request = UpdateBatchRequest {
        name: "Updated Name".to_string(),
        description: Some("New Description".to_string()),
    };
    let result = service.update_batch(&batch_id, update_request, test_principal);
    assert!(result.is_ok());

    let updated_batch = service.get_batch(&batch_id, test_principal).unwrap();
    assert_eq!(updated_batch.batch.name, "Updated Name");
    assert_eq!(updated_batch.batch.description, Some("New Description".to_string()));
}

#[test]
fn test_batch_deletion() {
    let mut service = setup_test_env();
    let test_principal = principal("2vxsx-fae");

    let batch_request = CreateBatchRequest { name: "To Delete".to_string(), description: None };
    let batch_id = service.create_batch(batch_request, test_principal).unwrap();

    let result = service.delete_batch(&batch_id, test_principal);
    assert!(result.is_ok());

    let batches = service.get_batches(false, test_principal);
    assert!(!batches.iter().any(|b| b.batch.id == batch_id));
}

#[test]
fn test_weight_management() {
    let mut service = setup_test_env();
    let test_principal = principal("2vxsx-fae");

    let batch_request = CreateBatchRequest { name: "Weight Test".to_string(), description: None };
    let batch_id = service.create_batch(batch_request, test_principal).unwrap();

    let (batches, weights, access, clock) = service.into_parts();
    let mut weight_service = WeightService::new(weights, batches, access, clock);
    let weight_request = CreateWeightRequest {
        batch_id: batch_id.clone(),
        item_id: "test_item".to_string(),
        weight: value(100.0),
        owner_override: None,
    };
    let result = weight_tracker_backend::errors::render(weight_service.create_weight(weight_request, test_principal));
    assert!(result.contains("successfully"));

    let (weights, batches, access, clock) = weight_service.into_parts();
    let service = BatchService::new(batches, weights, access, clock);
    let batch = service.get_batch(&batch_id, test_principal).unwrap();
    assert_eq!(batch.stats.count, 1);
    assert_eq!(mean(&service.live_values(&batch_id)), 100.0);
}

#[test]
fn test_batch_sharing() {
    let mut service = setup_test_env();
    let owner = principal("2vxsx-fae");
    let collaborator = principal("rrkah-fqaaa-aaaaa-aaaaq-cai");

    let batch_request = CreateBatchRequest { name: "Shared Batch".to_string(), description: None };
    let batch_id = service.create_batch(batch_request, owner).unwrap();

    let (batches, weights, access, clock) = service.into_parts();
    let mut sharing = AccessControlService::new(access, batches);
    let share_result =
        weight_tracker_backend::errors::render(sharing.share_with_user(owner, collaborator, batch_id.clone()));
    assert!(share_result.contains("successfully"));

    let (access, batches) = sharing.into_parts();
    let service = BatchService::new(batches, weights, access, clock);
    let batch = service.get_batch(&batch_id, collaborator);
    assert!(batch.is_ok());
}
