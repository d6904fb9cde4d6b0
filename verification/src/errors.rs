//! The failures that the stores and services report.

use vstd::prelude::*;

verus! {

/// The five families of failure.
#[derive(Clone, Copy, Debug, PartialEq, Eq, Structural, Hash)]
pub enum ErrorKind {
    /// A batch, a weight or a sharing entry is absent.
    NotFound,
    /// The caller lacks the relationship that the operation asks for.
    Unauthorized,
    /// A name or identifier is blank, or a weight is outside its range.
    Validation,
    /// The record is already soft-deleted.
    AlreadyDeleted,
    /// A sharing request that cannot be granted as it stands.
    Sharing,
}

/// Why an operation failed.
#[derive(Clone, Copy, Debug, PartialEq, Eq, Structural, Hash)]
pub enum TrackerError {
    /// The weight is not a number greater than zero.
    InvalidValue,
    /// The weight is greater than 10000.
    OutOfRange,
    /// The item identifier is blank.
    EmptyItemId,
    /// The batch name is blank.
    EmptyName,
    /// The batch identifier is blank.
    EmptyBatchId,
    /// A weight was to be added to a batch that does not exist.
    InvalidBatchId,
    /// No weight has the given identity.
    WeightNotFound,
    /// No batch has the given identifier.
    BatchNotFound,
    /// The owner has shared nothing at all.
    NoSharingFound,
    /// The owner has shared nothing with this collaborator.
    NoSharingWithCollaborator,
    /// The caller may not add weights to the batch.
    CannotAddWeights,
    /// The caller may not update the weight.
    CannotUpdateWeight,
    /// The caller may not delete the weight.
    CannotDeleteWeight,
    /// The caller may not read the batch.
    CannotReadBatch,
    /// Only the owner may change a batch's name and description.
    CannotUpdateBatch,
    /// Only the owner may delete a batch.
    CannotDeleteBatch,
    /// Only the owner may share a batch.
    CannotShareBatch,
    /// Only an owner of some live batch may remove sharing.
    CannotRemoveSharing,
    /// A deleted weight cannot be updated.
    WeightDeleted,
    /// The batch is already deleted.
    BatchAlreadyDeleted,
    /// A deleted batch cannot be shared.
    BatchDeleted,
    /// Owner and collaborator are the same principal.
    SelfSharing,
    /// The collaborator is the anonymous principal.
    AnonymousCollaborator,
    /// The collaborator already has access to the batch.
    AlreadyShared,
}

impl TrackerError {
    /// The family that the failure belongs to.
    pub open spec fn kind_of(self) -> ErrorKind {
        match self {
            TrackerError::InvalidValue => ErrorKind::Validation,
            TrackerError::OutOfRange => ErrorKind::Validation,
            TrackerError::EmptyItemId => ErrorKind::Validation,
            TrackerError::EmptyName => ErrorKind::Validation,
            TrackerError::EmptyBatchId => ErrorKind::Validation,
            TrackerError::InvalidBatchId => ErrorKind::NotFound,
            TrackerError::WeightNotFound => ErrorKind::NotFound,
            TrackerError::BatchNotFound => ErrorKind::NotFound,
            TrackerError::NoSharingFound => ErrorKind::NotFound,
            TrackerError::NoSharingWithCollaborator => ErrorKind::NotFound,
            TrackerError::CannotAddWeights => ErrorKind::Unauthorized,
            TrackerError::CannotUpdateWeight => ErrorKind::Unauthorized,
            TrackerError::CannotDeleteWeight => ErrorKind::Unauthorized,
            TrackerError::CannotReadBatch => ErrorKind::Unauthorized,
            TrackerError::CannotUpdateBatch => ErrorKind::Unauthorized,
            TrackerError::CannotDeleteBatch => ErrorKind::Unauthorized,
            TrackerError::CannotShareBatch => ErrorKind::Unauthorized,
            TrackerError::CannotRemoveSharing => ErrorKind::Unauthorized,
            TrackerError::WeightDeleted => ErrorKind::AlreadyDeleted,
            TrackerError::BatchAlreadyDeleted => ErrorKind::AlreadyDeleted,
            TrackerError::BatchDeleted => ErrorKind::Sharing,
            TrackerError::SelfSharing => ErrorKind::Sharing,
            TrackerError::AnonymousCollaborator => ErrorKind::Sharing,
            TrackerError::AlreadyShared => ErrorKind::Sharing,
        }
    }

    /// The message that describes the failure to a user.
    pub open spec fn message_text(self) -> Seq<char> {
        match self {
            TrackerError::InvalidValue => "Invalid weight value: weight must be positive"@,
            TrackerError::OutOfRange => "Weight value out of reasonable range"@,
            TrackerError::EmptyItemId => "Item ID cannot be empty"@,
            TrackerError::EmptyName => "Batch name cannot be empty"@,
            TrackerError::EmptyBatchId => "Batch ID cannot be empty"@,
            TrackerError::InvalidBatchId => "Invalid batch ID"@,
            TrackerError::WeightNotFound => "Weight not found"@,
            TrackerError::BatchNotFound => "Batch not found"@,
            TrackerError::NoSharingFound => "No sharing permissions found"@,
            TrackerError::NoSharingWithCollaborator => "No sharing permissions found with this collaborator"@,
            TrackerError::CannotAddWeights => "Unauthorized: You don't have access to add weights to this batch"@,
            TrackerError::CannotUpdateWeight => "Unauthorized: You don't have permission to update this record"@,
            TrackerError::CannotDeleteWeight => "Unauthorized: You don't have permission to delete this record"@,
            TrackerError::CannotReadBatch => "Unauthorized access to batch"@,
            TrackerError::CannotUpdateBatch => "Unauthorized: Only the owner can update batch details"@,
            TrackerError::CannotDeleteBatch => "Unauthorized: Only the owner can delete this batch"@,
            TrackerError::CannotShareBatch => "Only the owner can share this batch"@,
            TrackerError::CannotRemoveSharing => "Only the owner can remove sharing permissions"@,
            TrackerError::WeightDeleted => "Cannot update deleted weight"@,
            TrackerError::BatchAlreadyDeleted => "Batch is already deleted"@,
            TrackerError::BatchDeleted => "Cannot share deleted batch"@,
            TrackerError::SelfSharing => "Cannot share data with yourself"@,
            TrackerError::AnonymousCollaborator => "Cannot share with anonymous principal"@,
            TrackerError::AlreadyShared => "Batch is already shared with this user"@,
        }
    }

    /// The family that the failure belongs to.
    pub fn kind(&self) -> (r: ErrorKind)
        ensures
            r == self.kind_of(),
    {
        match self {
            TrackerError::InvalidValue
            | TrackerError::OutOfRange
            | TrackerError::EmptyItemId
            | TrackerError::EmptyName
            | TrackerError::EmptyBatchId => ErrorKind::Validation,
            TrackerError::InvalidBatchId
            | TrackerError::WeightNotFound
            | TrackerError::BatchNotFound
            | TrackerError::NoSharingFound
            | TrackerError::NoSharingWithCollaborator => ErrorKind::NotFound,
            TrackerError::CannotAddWeights
            | TrackerError::CannotUpdateWeight
            | TrackerError::CannotDeleteWeight
            | TrackerError::CannotReadBatch
            | TrackerError::CannotUpdateBatch
            | TrackerError::CannotDeleteBatch
            | TrackerError::CannotShareBatch
            | TrackerError::CannotRemoveSharing => ErrorKind::Unauthorized,
            TrackerError::WeightDeleted | TrackerError::BatchAlreadyDeleted => ErrorKind::AlreadyDeleted,
            TrackerError::BatchDeleted
            | TrackerError::SelfSharing
            | TrackerError::AnonymousCollaborator
            | TrackerError::AlreadyShared => ErrorKind::Sharing,
        }
    }

    /// The message that describes the failure to a user.
    pub fn message(&self) -> (r: String)
        ensures
            r@ == self.message_text(),
    {
        match self {
            TrackerError::InvalidValue => "Invalid weight value: weight must be positive".to_string(),
            TrackerError::OutOfRange => "Weight value out of reasonable range".to_string(),
            TrackerError::EmptyItemId => "Item ID cannot be empty".to_string(),
            TrackerError::EmptyName => "Batch name cannot be empty".to_string(),
            TrackerError::EmptyBatchId => "Batch ID cannot be empty".to_string(),
            TrackerError::InvalidBatchId => "Invalid batch ID".to_string(),
            TrackerError::WeightNotFound => "Weight not found".to_string(),
            TrackerError::BatchNotFound => "Batch not found".to_string(),
            TrackerError::NoSharingFound => "No sharing permissions found".to_string(),
            TrackerError::NoSharingWithCollaborator => "No sharing permissions found with this collaborator".to_string(),
            TrackerError::CannotAddWeights => "Unauthorized: You don't have access to add weights to this batch".to_string(),
            TrackerError::CannotUpdateWeight => "Unauthorized: You don't have permission to update this record".to_string(),
            TrackerError::CannotDeleteWeight => "Unauthorized: You don't have permission to delete this record".to_string(),
            TrackerError::CannotReadBatch => "Unauthorized access to batch".to_string(),
            TrackerError::CannotUpdateBatch => "Unauthorized: Only the owner can update batch details".to_string(),
            TrackerError::CannotDeleteBatch => "Unauthorized: Only the owner can delete this batch".to_string(),
            TrackerError::CannotShareBatch => "Only the owner can share this batch".to_string(),
            TrackerError::CannotRemoveSharing => "Only the owner can remove sharing permissions".to_string(),
            TrackerError::WeightDeleted => "Cannot update deleted weight".to_string(),
            TrackerError::BatchAlreadyDeleted => "Batch is already deleted".to_string(),
            TrackerError::BatchDeleted => "Cannot share deleted batch".to_string(),
            TrackerError::SelfSharing => "Cannot share data with yourself".to_string(),
            TrackerError::AnonymousCollaborator => "Cannot share with anonymous principal".to_string(),
            TrackerError::AlreadyShared => "Batch is already shared with this user".to_string(),
        }
    }
}

/// The text that the transport shows for an outcome: the success message, or
/// the message of the failure.
pub fn render(outcome: Result<String, TrackerError>) -> (r: String)
    ensures
        r@ == match outcome {
            Ok(text) => text@,
            Err(e) => e.message_text(),
        },
{
    match outcome {
        Ok(text) => text,
        Err(e) => e.message(),
    }
}

} // verus!
