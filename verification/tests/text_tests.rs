use weight_tracker_backend::errors::{render, ErrorKind, TrackerError};
use weight_tracker_backend::principal::Principal;
use weight_tracker_backend::text::{char_is_whitespace, decimal_string, is_blank, push_decimal};

#[test]
fn test_whitespace_is_unicode_white_space() {
    let mut code: u32 = 0;
    while code <= 0x10FFFF {
        if let Some(c) = char::from_u32(code) {
            assert_eq!(char_is_whitespace(c), c.is_whitespace(), "code point {}", code);
        }
        code += 1;
    }
}

#[test]
fn test_blank_is_empty_after_trim() {
    let samples = ["", " ", "\t\n", "\u{3000}\u{2003}", "a", " a ", "\u{200B}", " \u{85} ", "batch 1", "  x"];
    for s in samples {
        assert_eq!(is_blank(s), s.trim().is_empty(), "text {:?}", s);
    }
}

#[test]
fn test_decimal_string() {
    let samples = [0u64, 1, 9, 10, 11, 99, 100, 1000, 123456789, 1_000_000_007, u64::MAX];
    for n in samples {
        assert_eq!(decimal_string(n), n.to_string());
    }
    assert_eq!(decimal_string(1000), "1000");
}

#[test]
fn test_push_decimal_appends() {
    let mut text = "batch_".to_string();
    push_decimal(&mut text, 1700000000000000000);
    assert_eq!(text, "batch_1700000000000000000");
}

#[test]
fn test_anonymous_principal() {
    let anonymous = Principal::anonymous();
    assert_eq!(anonymous.to_bytes(), vec![4u8]);
    assert_eq!(anonymous.to_bytes(), candid::Principal::anonymous().as_slice().to_vec());
    assert!(anonymous.is_anonymous());
    assert_eq!(anonymous.len(), 1);
    let from_text = candid::Principal::from_text("2vxsx-fae").unwrap();
    assert_eq!(Principal::from_slice(from_text.as_slice()).unwrap(), anonymous);
}

#[test]
fn test_principal_from_slice() {
    let management = Principal::from_slice(&[]).unwrap();
    assert_eq!(management.len(), 0);
    assert!(!management.is_anonymous());
    let longest = [7u8; 29];
    let p = Principal::from_slice(&longest).unwrap();
    assert_eq!(p.to_bytes(), longest.to_vec());
    assert_eq!(p.len(), 29);
    assert!(Principal::from_slice(&[7u8; 30]).is_none());
    assert!(Principal::from_slice(&[4u8, 0u8]).unwrap() != Principal::anonymous());
    assert!(Principal::from_slice(&[4u8]).unwrap() == Principal::anonymous());
    assert!(Principal::from_slice(&[0u8]).unwrap() != management);
}

#[test]
fn test_principal_matches_candid() {
    let texts = ["rrkah-fqaaa-aaaaa-aaaaq-cai", "aaaaa-aa", "ryjl3-tyaaa-aaaaa-aaaba-cai", "renrk-eyaaa-aaaaa-aaada-cai"];
    for a in texts {
        for b in texts {
            let ca = candid::Principal::from_text(a).unwrap();
            let cb = candid::Principal::from_text(b).unwrap();
            let pa = Principal::from_slice(ca.as_slice()).unwrap();
            let pb = Principal::from_slice(cb.as_slice()).unwrap();
            assert_eq!(pa == pb, ca == cb);
            assert_eq!(candid::Principal::from_slice(&pa.to_bytes()), ca);
        }
    }
}

#[test]
fn test_error_messages() {
    let all = [
        (TrackerError::InvalidValue, "Invalid weight value: weight must be positive", ErrorKind::Validation),
        (TrackerError::OutOfRange, "Weight value out of reasonable range", ErrorKind::Validation),
        (TrackerError::EmptyItemId, "Item ID cannot be empty", ErrorKind::Validation),
        (TrackerError::EmptyName, "Batch name cannot be empty", ErrorKind::Validation),
        (TrackerError::EmptyBatchId, "Batch ID cannot be empty", ErrorKind::Validation),
        (TrackerError::InvalidBatchId, "Invalid batch ID", ErrorKind::NotFound),
        (TrackerError::WeightNotFound, "Weight not found", ErrorKind::NotFound),
        (TrackerError::BatchNotFound, "Batch not found", ErrorKind::NotFound),
        (TrackerError::NoSharingFound, "No sharing permissions found", ErrorKind::NotFound),
        (
            TrackerError::NoSharingWithCollaborator,
            "No sharing permissions found with this collaborator",
            ErrorKind::NotFound,
        ),
        (
            TrackerError::CannotAddWeights,
            "Unauthorized: You don't have access to add weights to this batch",
            ErrorKind::Unauthorized,
        ),
        (
            TrackerError::CannotUpdateWeight,
            "Unauthorized: You don't have permission to update this record",
            ErrorKind::Unauthorized,
        ),
        (
            TrackerError::CannotDeleteWeight,
            "Unauthorized: You don't have permission to delete this record",
            ErrorKind::Unauthorized,
        ),
        (TrackerError::CannotReadBatch, "Unauthorized access to batch", ErrorKind::Unauthorized),
        (
            TrackerError::CannotUpdateBatch,
            "Unauthorized: Only the owner can update batch details",
            ErrorKind::Unauthorized,
        ),
        (
            TrackerError::CannotDeleteBatch,
            "Unauthorized: Only the owner can delete this batch",
            ErrorKind::Unauthorized,
        ),
        (TrackerError::CannotShareBatch, "Only the owner can share this batch", ErrorKind::Unauthorized),
        (
            TrackerError::CannotRemoveSharing,
            "Only the owner can remove sharing permissions",
            ErrorKind::Unauthorized,
        ),
        (TrackerError::WeightDeleted, "Cannot update deleted weight", ErrorKind::AlreadyDeleted),
        (TrackerError::BatchAlreadyDeleted, "Batch is already deleted", ErrorKind::AlreadyDeleted),
        (TrackerError::BatchDeleted, "Cannot share deleted batch", ErrorKind::Sharing),
        (TrackerError::SelfSharing, "Cannot share data with yourself", ErrorKind::Sharing),
        (TrackerError::AnonymousCollaborator, "Cannot share with anonymous principal", ErrorKind::Sharing),
        (TrackerError::AlreadyShared, "Batch is already shared with this user", ErrorKind::Sharing),
    ];
    for (error, message, kind) in all {
        assert_eq!(error.message(), message);
        assert_eq!(error.kind(), kind);
        assert_eq!(render(Err(error)), message);
    }
    assert_eq!(render(Ok("Weight created successfully".to_string())), "Weight created successfully");
}
