//! Diagnostics: what validation and verification report about a model.

use vstd::prelude::*;

use crate::model::Id;

verus! {

/// One finding about a model: a validation error, an unproven
/// requirement, or a warning raised next to a verdict.
pub struct Diagnostic {
    pub code: DiagnosticCode,
    pub severity: Severity,
    /// Primary model entity to which this diagnostic applies.
    pub subject: Option<Id>,
    pub message: String,
    /// Additional model facts that explain the diagnostic.
    pub evidence: Vec<Evidence>,
}

impl Diagnostic {
    /// Whether the diagnostic is an error, as opposed to a warning or
    /// an unknown verdict.
    pub fn is_error(&self) -> (r: bool)
        ensures
            r == (self.severity == Severity::Error),
    {
        match self.severity {
            Severity::Error => true,
            _ => false,
        }
    }
}

#[derive(Debug, Clone, Copy, PartialEq, Eq, Structural)]
pub enum Severity {
    Error,
    Warning,
    Unknown,
}

/// One model fact explaining a diagnostic.
pub struct Evidence {
    pub subject: Option<Id>,
    pub message: String,
}

#[derive(Debug, Clone, Copy, PartialEq, Eq, Structural)]
pub enum DiagnosticCode {
    Validation(ValidationCode),
    Verification(VerificationCode),
}

#[derive(Debug, Clone, Copy, PartialEq, Eq, Structural)]
pub enum VerificationCode {
    /// A declared serialization requirement is not established by the
    /// declared facts: epistemic, not a violation.
    SerializationUnproven,
    /// A declared result-replay obligation is not established by the
    /// declared facts: epistemic, not a violation.
    ResultReplayUnproven,
    /// A declared recoverability requirement is not established.
    RecoverabilityUnproven,
    /// A declared idempotency requirement is not established.
    IdempotencyUnproven,
    /// A recoverability requirement is proven with completion
    /// guaranteed by retries, but no idempotency requirement keyed
    /// from the triggering input declares those retries safe.
    RecoverabilityRetrySafetyUndeclared,
    /// A declared ordering requirement is not established.
    OrderingUnproven,
    /// A subscription admits duplicate deliveries and its operation
    /// declares no idempotency requirement keyed from it.
    DuplicateDeliveryUnchecked,
    /// A `present` condition over a path with no optional segment is
    /// vacuously true.
    RedundantPresenceCheck,
}

#[derive(Debug, Clone, Copy, PartialEq, Eq, Structural)]
pub enum ValidationCode {
    DuplicateId,
    UnknownReference,
    InvalidReferenceKind,
    InvalidReferenceOwner,
    InvalidFieldPath,
    ValueSourceHasNoSchema,
    ValueSourceOutOfScope,
    FragmentCycle,
    DataObjectSchemaNotCanonical,
    SubscriptionMessageNotOnTopic,
    PublicationEffectMessageNotOnTopic,
    MessageIdentitySchemaNotOnTopic,
    EmptyMessageIdentity,
    MessageIdentityArityMismatch,
    EmptyRequestIdentity,
    TransactionRequirementKeyUnavailable,
    TransactionOrderingPositionUnavailable,
    TransactionOrderingPositionNotOrderedScalar,
    MissingTransactionRejectedArm,
    UnexpectedTransactionRejectedArm,
    UnknownTransitionOutbox,
    InvalidTransitionOutboxSchema,
    TransitionOutboxOutsideDataModel,
    InvalidTransitionOutboxDerivation,
    InvalidObjectVersionField,
    DirectWriteToVersionField,
    MissingVersionBump,
    DuplicateVersionBump,
    VersionValidationWithoutObservedVersion,
    VersionProtocolOnUnversionedObject,
    ManagedFieldRoleConflict,
    DirectWriteToManagedField,
    InvalidManagedFieldType,
    UnknownResultErrorClass,
    MissingResultErrorArm,
    UnexpectedResultErrorArm,
    OutboxWithoutConsumer,
    OutboxMultipleConsumers,
    OutboxWriteMessageNotAdmitted,
    OutboxMessageIdentitySchemaNotAdmitted,
    EmptyOutboxMessageIdentity,
    OutboxMessageIdentityArityMismatch,
    OutboxOutsideDataModel,
    OutboxWriteMissingDataModel,
    OutboxWriteOutsideTransaction,
    OutboxWriteCannotBeIntent,
    TransactionObjectOutsideDataModel,
    TransactionMissingDataModel,
    TransactionReadOutsideTransaction,
    TransactionReadOutOfOrder,
    TransactionReadFieldNotSelected,
    StateTransitionSubjectMismatch,
    TransitionEffectIntentsMismatch,
    EmptyObjectIdentity,
    InvalidInputKind,
    ProgramNotTerminated,
    UnreachableProgramStep,
    TransactionArtifactNotAvailable,
    EffectResultNotBound,
    EffectResultVariantOutOfScope,
    EffectHasNoResult,
    EmptyJoinAll,
    RaceRequiresTwoHandles,
    DuplicateSynchronizationHandle,
    AsyncHandleNotAvailable,
    RaceResultContractMismatch,
    EffectKindNotAsyncCapable,
    ExternalIdempotencyRequiresIdentity,
    ExternalReplayStabilityRequiresIdentity,
    ExternalResultReplayWithoutResult,
    // L1: runtime topology.
    EmptyRoutingKey,
    RoutingWithoutGrouping,
    DuplicateRouterForBoundary,
    EmptyPartitionKey,
    DuplicateStorageLayoutForObject,
    // L1: transport grouping and ordering.
    GroupingKeySchemaNotOnTopic,
    GroupingKeyMissingSchema,
    EmptyGroupingKey,
    GroupingKeyArityMismatch,
    WithinGroupWithoutGrouping,
    TransportSemanticsAtBothScopes,
    // L1: outbox partitioning, ordering, and dispatch.
    OutboxPartitionSchemaNotAdmitted,
    OutboxPartitionMissingSchema,
    EmptyOutboxPartitionKey,
    OutboxPartitionKeyArityMismatch,
    PartitionOrderingWithoutPartitioning,
    OutboxRoutingWithoutPartitioning,
}

/// The codes raised exclusively by validation of the L1 runtime model.
pub open spec fn runtime_code(code: ValidationCode) -> bool {
    match code {
        ValidationCode::EmptyRoutingKey
        | ValidationCode::RoutingWithoutGrouping
        | ValidationCode::DuplicateRouterForBoundary
        | ValidationCode::EmptyPartitionKey
        | ValidationCode::DuplicateStorageLayoutForObject
        | ValidationCode::GroupingKeySchemaNotOnTopic
        | ValidationCode::GroupingKeyMissingSchema
        | ValidationCode::EmptyGroupingKey
        | ValidationCode::GroupingKeyArityMismatch
        | ValidationCode::WithinGroupWithoutGrouping
        | ValidationCode::TransportSemanticsAtBothScopes
        | ValidationCode::OutboxPartitionSchemaNotAdmitted
        | ValidationCode::OutboxPartitionMissingSchema
        | ValidationCode::EmptyOutboxPartitionKey
        | ValidationCode::OutboxPartitionKeyArityMismatch
        | ValidationCode::PartitionOrderingWithoutPartitioning
        | ValidationCode::OutboxRoutingWithoutPartitioning => true,
        _ => false,
    }
}

impl ValidationCode {
    /// Whether the declaration at fault lives in the L1 runtime model.
    ///
    /// Only codes raised exclusively by runtime validation qualify. A
    /// generic code (an unknown reference, an invalid field path) can
    /// be raised from either layer and is not classified here.
    pub fn is_runtime(self) -> (r: bool)
        ensures
            r == runtime_code(self),
    {
        match self {
            ValidationCode::EmptyRoutingKey
            | ValidationCode::RoutingWithoutGrouping
            | ValidationCode::DuplicateRouterForBoundary
            | ValidationCode::EmptyPartitionKey
            | ValidationCode::DuplicateStorageLayoutForObject
            | ValidationCode::GroupingKeySchemaNotOnTopic
            | ValidationCode::GroupingKeyMissingSchema
            | ValidationCode::EmptyGroupingKey
            | ValidationCode::GroupingKeyArityMismatch
            | ValidationCode::WithinGroupWithoutGrouping
            | ValidationCode::TransportSemanticsAtBothScopes
            | ValidationCode::OutboxPartitionSchemaNotAdmitted
            | ValidationCode::OutboxPartitionMissingSchema
            | ValidationCode::EmptyOutboxPartitionKey
            | ValidationCode::OutboxPartitionKeyArityMismatch
            | ValidationCode::PartitionOrderingWithoutPartitioning
            | ValidationCode::OutboxRoutingWithoutPartitioning => true,
            _ => false,
        }
    }
}

impl DiagnosticCode {
    /// Whether the declaration at fault lives in the L1 runtime model:
    /// never for a verification verdict.
    pub fn is_runtime(self) -> (r: bool)
        ensures
            r == match self {
                DiagnosticCode::Validation(code) => runtime_code(code),
                DiagnosticCode::Verification(_) => false,
            },
    {
        match self {
            DiagnosticCode::Validation(code) => code.is_runtime(),
            DiagnosticCode::Verification(_) => false,
        }
    }
}

} // verus!
