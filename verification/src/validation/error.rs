//! Validation errors, and the diagnostic each one reports.

use vstd::prelude::*;

use crate::diagnostic::{Diagnostic, DiagnosticCode, Evidence, Severity, ValidationCode};
use crate::model::{cursor_rule_text, CursorAdvanceRule, FieldPath, Id, ResultVariant, StepLocation, ValueRef};
use crate::text::{decimal, joined, push_decimal, push_successor};

use super::reference::{reference_kind_text, variant_text, ReferenceKind};
use super::{input_kind_text, InputKind};

verus! {

/// Which transaction requirement family a diagnostic concerns.
#[derive(Debug, Clone, Copy, PartialEq, Eq, Structural)]
pub enum TransactionRequirementFamily {
    Serializability,
    Order,
}

pub open spec fn family_text(family: TransactionRequirementFamily) -> Seq<char> {
    match family {
        TransactionRequirementFamily::Serializability => "serializability"@,
        TransactionRequirementFamily::Order => "ordering"@,
    }
}

impl TransactionRequirementFamily {
    pub fn text(&self) -> (r: &'static str)
        ensures
            r@ == family_text(*self),
    {
        match self {
            TransactionRequirementFamily::Serializability => "serializability",
            TransactionRequirementFamily::Order => "ordering",
        }
    }
}

/// Why a value is not available when a transaction begins.
pub enum EntryUnavailability {
    /// The value is a read performed inside the transaction itself.
    TransactionRead { read: Id },
    /// A transaction artifact no transaction on every reaching path
    /// establishes.
    ArtifactNotAvailable { artifact: Id },
    /// A result binding no effect-executing step on every reaching path
    /// binds.
    ResultNotBound { result: Id },
    /// A result payload referenced outside the match arm that selects
    /// it.
    ResultPayloadOutOfScope { result: Id },
}

pub open spec fn unavailability_text(reason: EntryUnavailability) -> Seq<char> {
    match reason {
        EntryUnavailability::TransactionRead { read } => "it is transaction read `"@ + read@
            + "`, which is performed inside the transaction and so does not exist when it begins"@,
        EntryUnavailability::ArtifactNotAvailable { artifact } => "transaction artifact `"@
            + artifact@ + "` is not established on every path reaching the step"@,
        EntryUnavailability::ResultNotBound { result } => "result `"@ + result@
            + "` is not bound on every path reaching the step"@,
        EntryUnavailability::ResultPayloadOutOfScope { result } => "the payload of result `"@
            + result@ + "` is referenced outside the match arm that selects it"@,
    }
}

impl EntryUnavailability {
    pub fn text(&self) -> (r: String)
        ensures
            r@ == unavailability_text(*self),
    {
        let (lead, id, tail) = match self {
            EntryUnavailability::TransactionRead { read } => (
                "it is transaction read `",
                read,
                "`, which is performed inside the transaction and so does not exist when it begins",
            ),
            EntryUnavailability::ArtifactNotAvailable { artifact } => (
                "transaction artifact `",
                artifact,
                "` is not established on every path reaching the step",
            ),
            EntryUnavailability::ResultNotBound { result } => (
                "result `",
                result,
                "` is not bound on every path reaching the step",
            ),
            EntryUnavailability::ResultPayloadOutOfScope { result } => (
                "the payload of result `",
                result,
                "` is referenced outside the match arm that selects it",
            ),
        };
        let mut text = String::from_str(lead);
        text.append(id.as_str());
        text.append(tail);
        text
    }
}

/// The semantic role a managed monotonic field plays.
#[derive(Debug, Clone, Copy, PartialEq, Eq, Structural)]
pub enum ManagedRole {
    Version,
    Cursor { rule: CursorAdvanceRule },
    Fence,
}

pub open spec fn managed_role_text(role: ManagedRole) -> Seq<char> {
    match role {
        ManagedRole::Version => "version"@,
        ManagedRole::Cursor { rule } => "cursor ("@ + cursor_rule_text(rule) + ")"@,
        ManagedRole::Fence => "fence"@,
    }
}

impl ManagedRole {
    pub fn text(&self) -> (r: String)
        ensures
            r@ == managed_role_text(*self),
    {
        match self {
            ManagedRole::Version => String::from_str("version"),
            ManagedRole::Cursor { rule } => {
                let mut text = String::from_str("cursor (");
                text.append(rule.text());
                text.append(")");
                text
            },
            ManagedRole::Fence => String::from_str("fence"),
        }
    }
}

/// Why a declared version field is not a valid one.
pub enum VersionFieldDefect {
    Unresolved,
    Optional,
    NotInt { found: String },
    IdentityField,
}

pub open spec fn version_defect_text(defect: VersionFieldDefect) -> Seq<char> {
    match defect {
        VersionFieldDefect::Unresolved => "it does not resolve against the object's schema"@,
        VersionFieldDefect::Optional => "it is optional, and a version token must always exist"@,
        VersionFieldDefect::NotInt { found } => "it is "@ + found@
            + ", and a version token must be int"@,
        VersionFieldDefect::IdentityField => "it is part of the object's identity, which a version never is"@,
    }
}

impl VersionFieldDefect {
    pub fn text(&self) -> (r: String)
        ensures
            r@ == version_defect_text(*self),
    {
        match self {
            VersionFieldDefect::Unresolved => String::from_str(
                "it does not resolve against the object's schema",
            ),
            VersionFieldDefect::Optional => String::from_str(
                "it is optional, and a version token must always exist",
            ),
            VersionFieldDefect::NotInt { found } => {
                let mut text = String::from_str("it is ");
                text.append(found.as_str());
                text.append(", and a version token must be int");
                text
            },
            VersionFieldDefect::IdentityField => String::from_str(
                "it is part of the object's identity, which a version never is",
            ),
        }
    }
}

/// Why a managed field, or the value driving it, has the wrong type.
pub enum ManagedFieldDefect {
    Unresolved,
    Optional,
    NotOrderedScalar { found: String },
    NotInt { found: String },
    ValueTypeMismatch { expected: String, found: String },
}

pub open spec fn managed_defect_text(defect: ManagedFieldDefect) -> Seq<char> {
    match defect {
        ManagedFieldDefect::Unresolved => "the field does not resolve against the object's schema"@,
        ManagedFieldDefect::Optional => "the field is optional, and a managed position must always exist"@,
        ManagedFieldDefect::NotOrderedScalar { found } => "the field is "@ + found@
            + ", and a managed position must be an ordered scalar: int, decimal, or timestamp"@,
        ManagedFieldDefect::NotInt { found } => "the field is "@ + found@
            + ", and a successor cursor must be int"@,
        ManagedFieldDefect::ValueTypeMismatch { expected, found } => "the incoming value is "@
            + found@ + ", but the field is "@ + expected@,
    }
}

impl ManagedFieldDefect {
    pub fn text(&self) -> (r: String)
        ensures
            r@ == managed_defect_text(*self),
    {
        match self {
            ManagedFieldDefect::Unresolved => String::from_str(
                "the field does not resolve against the object's schema",
            ),
            ManagedFieldDefect::Optional => String::from_str(
                "the field is optional, and a managed position must always exist",
            ),
            ManagedFieldDefect::NotOrderedScalar { found } => {
                let mut text = String::from_str("the field is ");
                text.append(found.as_str());
                text.append(
                    ", and a managed position must be an ordered scalar: int, decimal, or timestamp",
                );
                text
            },
            ManagedFieldDefect::NotInt { found } => {
                let mut text = String::from_str("the field is ");
                text.append(found.as_str());
                text.append(", and a successor cursor must be int");
                text
            },
            ManagedFieldDefect::ValueTypeMismatch { expected, found } => {
                let mut text = String::from_str("the incoming value is ");
                text.append(found.as_str());
                text.append(", but the field is ");
                text.append(expected.as_str());
                text
            },
        }
    }
}

/// Where a program point consumes a value, for a diagnostic to name.
pub enum ProgramUse {
    /// The body or commit key of a transaction executed at the step.
    Transaction { transaction: Id },
    /// The instance derivation or the declaration of an effect executed
    /// at the step.
    Effect { effect: Id },
    /// The execution of an effect intent at the step.
    EffectIntent { intent: Id },
    /// The `join_all` barrier at the step.
    JoinAll,
    /// The `race` barrier at the step.
    Race,
    /// The `match_result` at the step.
    Match,
    /// The branch condition at the step.
    Condition,
    /// The outcome returned at the step.
    Return { request: Id },
}

impl Clone for ProgramUse {
    fn clone(&self) -> (r: Self)
        ensures
            r == *self,
    {
        match self {
            ProgramUse::Transaction { transaction } => ProgramUse::Transaction {
                transaction: transaction.clone(),
            },
            ProgramUse::Effect { effect } => ProgramUse::Effect { effect: effect.clone() },
            ProgramUse::EffectIntent { intent } => ProgramUse::EffectIntent {
                intent: intent.clone(),
            },
            ProgramUse::JoinAll => ProgramUse::JoinAll,
            ProgramUse::Race => ProgramUse::Race,
            ProgramUse::Match => ProgramUse::Match,
            ProgramUse::Condition => ProgramUse::Condition,
            ProgramUse::Return { request } => ProgramUse::Return { request: request.clone() },
        }
    }
}

pub open spec fn program_use_text(consumer: ProgramUse) -> Seq<char> {
    match consumer {
        ProgramUse::Transaction { transaction } => "transaction `"@ + transaction@ + "`"@,
        ProgramUse::Effect { effect } => "the execution of effect `"@ + effect@ + "`"@,
        ProgramUse::EffectIntent { intent } => "the execution of intent `"@ + intent@ + "`"@,
        ProgramUse::JoinAll => "the `join_all` barrier"@,
        ProgramUse::Race => "the `race` barrier"@,
        ProgramUse::Match => "the result match"@,
        ProgramUse::Condition => "the branch condition"@,
        ProgramUse::Return { request } => "the result returned for `"@ + request@ + "`"@,
    }
}

impl ProgramUse {
    pub fn text(&self) -> (r: String)
        ensures
            r@ == program_use_text(*self),
    {
        match self {
            ProgramUse::Transaction { transaction } => {
                let mut text = String::from_str("transaction `");
                text.append(transaction.as_str());
                text.append("`");
                text
            },
            ProgramUse::Effect { effect } => {
                let mut text = String::from_str("the execution of effect `");
                text.append(effect.as_str());
                text.append("`");
                text
            },
            ProgramUse::EffectIntent { intent } => {
                let mut text = String::from_str("the execution of intent `");
                text.append(intent.as_str());
                text.append("`");
                text
            },
            ProgramUse::JoinAll => String::from_str("the `join_all` barrier"),
            ProgramUse::Race => String::from_str("the `race` barrier"),
            ProgramUse::Match => String::from_str("the result match"),
            ProgramUse::Condition => String::from_str("the branch condition"),
            ProgramUse::Return { request } => {
                let mut text = String::from_str("the result returned for `");
                text.append(request.as_str());
                text.append("`");
                text
            },
        }
    }
}

/// One declaration of an identifier: the kind of thing declared, and
/// the declaration that owns it, if any.
pub struct IdDeclaration {
    pub kind: ReferenceKind,
    pub owner: Option<Id>,
}

pub open spec fn declaration_text(declaration: IdDeclaration) -> Seq<char> {
    match declaration.owner {
        Option::Some(owner) => "Declared as a "@ + reference_kind_text(declaration.kind)
            + " of `"@ + owner@ + "`."@,
        Option::None => "Declared as a "@ + reference_kind_text(declaration.kind) + "."@,
    }
}

impl IdDeclaration {
    /// The declaration as a piece of evidence describes it.
    pub fn describe(&self) -> (r: String)
        ensures
            r@ == declaration_text(*self),
    {
        let mut text = String::from_str("Declared as a ");
        text.append(self.kind.text());
        match &self.owner {
            Option::Some(owner) => {
                text.append(" of `");
                text.append(owner.as_str());
                text.append("`.");
            },
            Option::None => {
                text.append(".");
            },
        }
        text
    }
}

/// A structural defect of a model, found by validation.
pub enum ValidationError {
    DuplicateId { id: Id, first: IdDeclaration, second: IdDeclaration },
    UnknownReference { subject: Id, reference: Id, expected: ReferenceKind },
    InvalidReferenceKind { subject: Id, reference: Id, expected: ReferenceKind, actual: ReferenceKind },
    InvalidReferenceOwner { subject: Id, reference: Id, expected_owner: Id, actual_owner: Option<Id> },
    InvalidFieldPath { subject: Id, schema: Id, path: FieldPath },
    ValueSourceHasNoSchema { subject: Id, source: Id },
    ValueSourceOutOfScope { subject: Id, source: Id, owner: Id },
    FragmentCycle { cycle: Vec<Id> },
    DataObjectSchemaNotCanonical { object: Id, schema: Id },
    SubscriptionMessageNotOnTopic { input: Id, topic: Id, schema: Id },
    PublicationEffectMessageNotOnTopic { effect: Id, topic: Id, schema: Id },
    MessageIdentitySchemaNotOnTopic { topic: Id, schema: Id },
    EmptyMessageIdentity { topic: Id, schema: Id },
    MessageIdentityArityMismatch { topic: Id, schema: Id, expected: usize, actual: usize },
    EmptyRequestIdentity { input: Id },
    TransactionRequirementKeyUnavailable { operation: Id, location: StepLocation, transaction: Id, family: TransactionRequirementFamily, requirement: usize, key: ValueRef, reason: EntryUnavailability },
    TransactionOrderingPositionUnavailable { operation: Id, location: StepLocation, transaction: Id, requirement: usize, position: ValueRef, reason: EntryUnavailability },
    TransactionOrderingPositionNotOrderedScalar { operation: Id, transaction: Id, requirement: usize, position: ValueRef, found: String },
    MissingTransactionRejectedArm { operation: Id, location: StepLocation, transaction: Id, step: usize },
    UnexpectedTransactionRejectedArm { operation: Id, location: StepLocation, transaction: Id },
    UnknownTransitionOutbox { machine: Id, transition: Id, effect: Id, outbox: Id },
    InvalidTransitionOutboxSchema { machine: Id, transition: Id, effect: Id, outbox: Id, schema: Id },
    TransitionOutboxOutsideDataModel { machine: Id, transition: Id, effect: Id, outbox: Id, data_model: Id },
    InvalidTransitionOutboxDerivation { transaction: Id, transition: Id, missing: Vec<Id>, unexpected: Vec<Id> },
    InvalidObjectVersionField { object: Id, field: FieldPath, defect: VersionFieldDefect },
    DirectWriteToVersionField { transaction: Id, step: usize, object: Id, field: FieldPath },
    MissingVersionBump { transaction: Id, step: usize, object: Id },
    DuplicateVersionBump { transaction: Id, step: usize, object: Id },
    VersionValidationWithoutObservedVersion { transaction: Id, step: usize, object: Id },
    VersionProtocolOnUnversionedObject { transaction: Id, step: usize, object: Id },
    ManagedFieldRoleConflict { object: Id, field: FieldPath, first: ManagedRole, second: ManagedRole },
    DirectWriteToManagedField { transaction: Id, step: usize, object: Id, field: FieldPath, role: ManagedRole },
    InvalidManagedFieldType { object: Id, field: FieldPath, role: ManagedRole, defect: ManagedFieldDefect },
    UnknownResultErrorClass { operation: Id, location: StepLocation, request: Id, error: Id },
    MissingResultErrorArm { operation: Id, location: StepLocation, result: Id, error: Id },
    UnexpectedResultErrorArm { operation: Id, location: StepLocation, result: Id, error: Id },
    EmptyRoutingKey { router: Id },
    RoutingWithoutGrouping { operation: Id, input: Id, topic: Id },
    GroupingKeySchemaNotOnTopic { subject: Id, topic: Id, schema: Id },
    GroupingKeyMissingSchema { subject: Id, topic: Id, schema: Id },
    EmptyGroupingKey { subject: Id, schema: Id },
    GroupingKeyArityMismatch { subject: Id, schema: Id, expected: usize, actual: usize },
    WithinGroupWithoutGrouping { subject: Id },
    TransportSemanticsAtBothScopes { topic: Id, operation: Id, input: Id },
    DuplicateRouterForBoundary { first: Id, second: Id, operation: Id, input: Id },
    EmptyPartitionKey { layout: Id },
    DuplicateStorageLayoutForObject { first: Id, second: Id, data_model: Id, object: Id },
    TransactionObjectOutsideDataModel { transaction: Id, data_model: Id, object: Id },
    TransactionMissingDataModel { transaction: Id, object: Id },
    TransactionReadOutsideTransaction { subject: Id, read: Id },
    TransactionReadOutOfOrder { transaction: Id, read: Id },
    TransactionReadFieldNotSelected { transaction: Id, read: Id, path: FieldPath },
    StateTransitionSubjectMismatch { transaction: Id, machine: Id, expected_object: Id, actual_object: Id },
    TransitionEffectIntentsMismatch { transaction: Id, transition: Id, missing: Vec<Id>, unexpected: Vec<Id> },
    EmptyObjectIdentity { object: Id },
    InvalidInputKind { subject: Id, input: Id, expected: InputKind, actual: InputKind },
    ProgramNotTerminated { operation: Id },
    UnreachableProgramStep { operation: Id, location: StepLocation },
    TransactionArtifactNotAvailable { operation: Id, location: StepLocation, artifact: Id, consumer: ProgramUse },
    EffectResultNotBound { operation: Id, location: StepLocation, result: Id, consumer: ProgramUse },
    EffectResultVariantOutOfScope { operation: Id, location: StepLocation, result: Id, variant: ResultVariant, consumer: ProgramUse },
    EffectHasNoResult { operation: Id, location: StepLocation, effect: Id, result: Id },
    ExternalIdempotencyRequiresIdentity { effect: Id },
    ExternalReplayStabilityRequiresIdentity { effect: Id },
    ExternalResultReplayWithoutResult { effect: Id },
    EmptyJoinAll { operation: Id, location: StepLocation },
    RaceRequiresTwoHandles { operation: Id, location: StepLocation, count: usize },
    DuplicateSynchronizationHandle { operation: Id, location: StepLocation, handle: Id, consumer: ProgramUse },
    AsyncHandleNotAvailable { operation: Id, location: StepLocation, handle: Id, consumer: ProgramUse },
    RaceResultContractMismatch { operation: Id, location: StepLocation, bind: Id, first: Id, second: Id },
    EffectKindNotAsyncCapable { operation: Id, location: StepLocation, effect: Id },
    OutboxWithoutConsumer { outbox: Id },
    OutboxMultipleConsumers { outbox: Id, first_operation: Id, first_input: Id, operation: Id, input: Id },
    OutboxWriteMessageNotAdmitted { effect: Id, outbox: Id, schema: Id },
    OutboxMessageIdentitySchemaNotAdmitted { outbox: Id, schema: Id },
    EmptyOutboxMessageIdentity { outbox: Id, schema: Id },
    OutboxMessageIdentityArityMismatch { outbox: Id, schema: Id, expected: usize, actual: usize },
    OutboxOutsideDataModel { transaction: Id, effect: Id, data_model: Id, outbox: Id },
    OutboxWriteMissingDataModel { transaction: Id, effect: Id, outbox: Id },
    OutboxWriteOutsideTransaction { operation: Id, effect: Id },
    OutboxWriteCannotBeIntent { transaction: Id, effect: Id },
    OutboxPartitionSchemaNotAdmitted { input: Id, outbox: Id, schema: Id },
    OutboxPartitionMissingSchema { input: Id, outbox: Id, schema: Id },
    EmptyOutboxPartitionKey { input: Id, schema: Id },
    OutboxPartitionKeyArityMismatch { input: Id, schema: Id, expected: usize, actual: usize },
    PartitionOrderingWithoutPartitioning { input: Id },
    OutboxRoutingWithoutPartitioning { operation: Id, input: Id, outbox: Id },
}

pub open spec fn validation_code(error: ValidationError) -> ValidationCode {
    match error {
        ValidationError::DuplicateId { .. } => ValidationCode::DuplicateId,
        ValidationError::UnknownReference { .. } => ValidationCode::UnknownReference,
        ValidationError::InvalidReferenceKind { .. } => ValidationCode::InvalidReferenceKind,
        ValidationError::InvalidReferenceOwner { .. } => ValidationCode::InvalidReferenceOwner,
        ValidationError::InvalidFieldPath { .. } => ValidationCode::InvalidFieldPath,
        ValidationError::ValueSourceHasNoSchema { .. } => ValidationCode::ValueSourceHasNoSchema,
        ValidationError::ValueSourceOutOfScope { .. } => ValidationCode::ValueSourceOutOfScope,
        ValidationError::FragmentCycle { .. } => ValidationCode::FragmentCycle,
        ValidationError::DataObjectSchemaNotCanonical { .. } => ValidationCode::DataObjectSchemaNotCanonical,
        ValidationError::SubscriptionMessageNotOnTopic { .. } => ValidationCode::SubscriptionMessageNotOnTopic,
        ValidationError::PublicationEffectMessageNotOnTopic { .. } => ValidationCode::PublicationEffectMessageNotOnTopic,
        ValidationError::MessageIdentitySchemaNotOnTopic { .. } => ValidationCode::MessageIdentitySchemaNotOnTopic,
        ValidationError::EmptyMessageIdentity { .. } => ValidationCode::EmptyMessageIdentity,
        ValidationError::MessageIdentityArityMismatch { .. } => ValidationCode::MessageIdentityArityMismatch,
        ValidationError::EmptyRequestIdentity { .. } => ValidationCode::EmptyRequestIdentity,
        ValidationError::TransactionRequirementKeyUnavailable { .. } => ValidationCode::TransactionRequirementKeyUnavailable,
        ValidationError::TransactionOrderingPositionUnavailable { .. } => ValidationCode::TransactionOrderingPositionUnavailable,
        ValidationError::TransactionOrderingPositionNotOrderedScalar { .. } => ValidationCode::TransactionOrderingPositionNotOrderedScalar,
        ValidationError::MissingTransactionRejectedArm { .. } => ValidationCode::MissingTransactionRejectedArm,
        ValidationError::UnexpectedTransactionRejectedArm { .. } => ValidationCode::UnexpectedTransactionRejectedArm,
        ValidationError::UnknownTransitionOutbox { .. } => ValidationCode::UnknownTransitionOutbox,
        ValidationError::InvalidTransitionOutboxSchema { .. } => ValidationCode::InvalidTransitionOutboxSchema,
        ValidationError::TransitionOutboxOutsideDataModel { .. } => ValidationCode::TransitionOutboxOutsideDataModel,
        ValidationError::InvalidTransitionOutboxDerivation { .. } => ValidationCode::InvalidTransitionOutboxDerivation,
        ValidationError::InvalidObjectVersionField { .. } => ValidationCode::InvalidObjectVersionField,
        ValidationError::DirectWriteToVersionField { .. } => ValidationCode::DirectWriteToVersionField,
        ValidationError::MissingVersionBump { .. } => ValidationCode::MissingVersionBump,
        ValidationError::DuplicateVersionBump { .. } => ValidationCode::DuplicateVersionBump,
        ValidationError::VersionValidationWithoutObservedVersion { .. } => ValidationCode::VersionValidationWithoutObservedVersion,
        ValidationError::VersionProtocolOnUnversionedObject { .. } => ValidationCode::VersionProtocolOnUnversionedObject,
        ValidationError::ManagedFieldRoleConflict { .. } => ValidationCode::ManagedFieldRoleConflict,
        ValidationError::DirectWriteToManagedField { .. } => ValidationCode::DirectWriteToManagedField,
        ValidationError::InvalidManagedFieldType { .. } => ValidationCode::InvalidManagedFieldType,
        ValidationError::UnknownResultErrorClass { .. } => ValidationCode::UnknownResultErrorClass,
        ValidationError::MissingResultErrorArm { .. } => ValidationCode::MissingResultErrorArm,
        ValidationError::UnexpectedResultErrorArm { .. } => ValidationCode::UnexpectedResultErrorArm,
        ValidationError::EmptyRoutingKey { .. } => ValidationCode::EmptyRoutingKey,
        ValidationError::RoutingWithoutGrouping { .. } => ValidationCode::RoutingWithoutGrouping,
        ValidationError::GroupingKeySchemaNotOnTopic { .. } => ValidationCode::GroupingKeySchemaNotOnTopic,
        ValidationError::GroupingKeyMissingSchema { .. } => ValidationCode::GroupingKeyMissingSchema,
        ValidationError::EmptyGroupingKey { .. } => ValidationCode::EmptyGroupingKey,
        ValidationError::GroupingKeyArityMismatch { .. } => ValidationCode::GroupingKeyArityMismatch,
        ValidationError::WithinGroupWithoutGrouping { .. } => ValidationCode::WithinGroupWithoutGrouping,
        ValidationError::TransportSemanticsAtBothScopes { .. } => ValidationCode::TransportSemanticsAtBothScopes,
        ValidationError::DuplicateRouterForBoundary { .. } => ValidationCode::DuplicateRouterForBoundary,
        ValidationError::EmptyPartitionKey { .. } => ValidationCode::EmptyPartitionKey,
        ValidationError::DuplicateStorageLayoutForObject { .. } => ValidationCode::DuplicateStorageLayoutForObject,
        ValidationError::TransactionObjectOutsideDataModel { .. } => ValidationCode::TransactionObjectOutsideDataModel,
        ValidationError::TransactionMissingDataModel { .. } => ValidationCode::TransactionMissingDataModel,
        ValidationError::TransactionReadOutsideTransaction { .. } => ValidationCode::TransactionReadOutsideTransaction,
        ValidationError::TransactionReadOutOfOrder { .. } => ValidationCode::TransactionReadOutOfOrder,
        ValidationError::TransactionReadFieldNotSelected { .. } => ValidationCode::TransactionReadFieldNotSelected,
        ValidationError::StateTransitionSubjectMismatch { .. } => ValidationCode::StateTransitionSubjectMismatch,
        ValidationError::TransitionEffectIntentsMismatch { .. } => ValidationCode::TransitionEffectIntentsMismatch,
        ValidationError::EmptyObjectIdentity { .. } => ValidationCode::EmptyObjectIdentity,
        ValidationError::InvalidInputKind { .. } => ValidationCode::InvalidInputKind,
        ValidationError::ProgramNotTerminated { .. } => ValidationCode::ProgramNotTerminated,
        ValidationError::UnreachableProgramStep { .. } => ValidationCode::UnreachableProgramStep,
        ValidationError::TransactionArtifactNotAvailable { .. } => ValidationCode::TransactionArtifactNotAvailable,
        ValidationError::EffectResultNotBound { .. } => ValidationCode::EffectResultNotBound,
        ValidationError::EffectResultVariantOutOfScope { .. } => ValidationCode::EffectResultVariantOutOfScope,
        ValidationError::EffectHasNoResult { .. } => ValidationCode::EffectHasNoResult,
        ValidationError::ExternalIdempotencyRequiresIdentity { .. } => ValidationCode::ExternalIdempotencyRequiresIdentity,
        ValidationError::ExternalReplayStabilityRequiresIdentity { .. } => ValidationCode::ExternalReplayStabilityRequiresIdentity,
        ValidationError::ExternalResultReplayWithoutResult { .. } => ValidationCode::ExternalResultReplayWithoutResult,
        ValidationError::EmptyJoinAll { .. } => ValidationCode::EmptyJoinAll,
        ValidationError::RaceRequiresTwoHandles { .. } => ValidationCode::RaceRequiresTwoHandles,
        ValidationError::DuplicateSynchronizationHandle { .. } => ValidationCode::DuplicateSynchronizationHandle,
        ValidationError::AsyncHandleNotAvailable { .. } => ValidationCode::AsyncHandleNotAvailable,
        ValidationError::RaceResultContractMismatch { .. } => ValidationCode::RaceResultContractMismatch,
        ValidationError::EffectKindNotAsyncCapable { .. } => ValidationCode::EffectKindNotAsyncCapable,
        ValidationError::OutboxWithoutConsumer { .. } => ValidationCode::OutboxWithoutConsumer,
        ValidationError::OutboxMultipleConsumers { .. } => ValidationCode::OutboxMultipleConsumers,
        ValidationError::OutboxWriteMessageNotAdmitted { .. } => ValidationCode::OutboxWriteMessageNotAdmitted,
        ValidationError::OutboxMessageIdentitySchemaNotAdmitted { .. } => ValidationCode::OutboxMessageIdentitySchemaNotAdmitted,
        ValidationError::EmptyOutboxMessageIdentity { .. } => ValidationCode::EmptyOutboxMessageIdentity,
        ValidationError::OutboxMessageIdentityArityMismatch { .. } => ValidationCode::OutboxMessageIdentityArityMismatch,
        ValidationError::OutboxOutsideDataModel { .. } => ValidationCode::OutboxOutsideDataModel,
        ValidationError::OutboxWriteMissingDataModel { .. } => ValidationCode::OutboxWriteMissingDataModel,
        ValidationError::OutboxWriteOutsideTransaction { .. } => ValidationCode::OutboxWriteOutsideTransaction,
        ValidationError::OutboxWriteCannotBeIntent { .. } => ValidationCode::OutboxWriteCannotBeIntent,
        ValidationError::OutboxPartitionSchemaNotAdmitted { .. } => ValidationCode::OutboxPartitionSchemaNotAdmitted,
        ValidationError::OutboxPartitionMissingSchema { .. } => ValidationCode::OutboxPartitionMissingSchema,
        ValidationError::EmptyOutboxPartitionKey { .. } => ValidationCode::EmptyOutboxPartitionKey,
        ValidationError::OutboxPartitionKeyArityMismatch { .. } => ValidationCode::OutboxPartitionKeyArityMismatch,
        ValidationError::PartitionOrderingWithoutPartitioning { .. } => ValidationCode::PartitionOrderingWithoutPartitioning,
        ValidationError::OutboxRoutingWithoutPartitioning { .. } => ValidationCode::OutboxRoutingWithoutPartitioning,
    }
}

pub open spec fn validation_subject(error: ValidationError) -> Option<Id> {
    match error {
        ValidationError::DuplicateId { id, .. } => Option::Some(id),
        ValidationError::InvalidReferenceOwner { subject, .. } => Option::Some(subject),
        ValidationError::FragmentCycle { cycle } => if cycle@.len() > 0 {
            Option::Some(cycle@[0])
        } else {
            Option::None
        },
        ValidationError::InvalidTransitionOutboxDerivation { transaction, .. } => Option::Some(
            transaction,
        ),
        ValidationError::TransitionEffectIntentsMismatch { transaction, .. } => Option::Some(
            transaction,
        ),
        ValidationError::UnknownReference { subject, .. } => Option::Some(subject),
        ValidationError::InvalidReferenceKind { subject, .. } => Option::Some(subject),
        ValidationError::InvalidFieldPath { subject, .. } => Option::Some(subject),
        ValidationError::ValueSourceHasNoSchema { subject, .. } => Option::Some(subject),
        ValidationError::ValueSourceOutOfScope { subject, .. } => Option::Some(subject),
        ValidationError::DataObjectSchemaNotCanonical { object, .. } => Option::Some(object),
        ValidationError::SubscriptionMessageNotOnTopic { input, .. } => Option::Some(input),
        ValidationError::PublicationEffectMessageNotOnTopic { effect, .. } => Option::Some(effect),
        ValidationError::MessageIdentitySchemaNotOnTopic { topic, .. } => Option::Some(topic),
        ValidationError::EmptyMessageIdentity { topic, .. } => Option::Some(topic),
        ValidationError::MessageIdentityArityMismatch { topic, .. } => Option::Some(topic),
        ValidationError::EmptyRequestIdentity { input, .. } => Option::Some(input),
        ValidationError::TransactionRequirementKeyUnavailable { transaction, .. } => Option::Some(transaction),
        ValidationError::TransactionOrderingPositionUnavailable { transaction, .. } => Option::Some(transaction),
        ValidationError::TransactionOrderingPositionNotOrderedScalar { transaction, .. } => Option::Some(transaction),
        ValidationError::MissingTransactionRejectedArm { transaction, .. } => Option::Some(transaction),
        ValidationError::UnexpectedTransactionRejectedArm { transaction, .. } => Option::Some(transaction),
        ValidationError::UnknownTransitionOutbox { transition, .. } => Option::Some(transition),
        ValidationError::InvalidTransitionOutboxSchema { transition, .. } => Option::Some(transition),
        ValidationError::TransitionOutboxOutsideDataModel { transition, .. } => Option::Some(transition),
        ValidationError::InvalidObjectVersionField { object, .. } => Option::Some(object),
        ValidationError::DirectWriteToVersionField { transaction, .. } => Option::Some(transaction),
        ValidationError::MissingVersionBump { transaction, .. } => Option::Some(transaction),
        ValidationError::DuplicateVersionBump { transaction, .. } => Option::Some(transaction),
        ValidationError::VersionValidationWithoutObservedVersion { transaction, .. } => Option::Some(transaction),
        ValidationError::VersionProtocolOnUnversionedObject { transaction, .. } => Option::Some(transaction),
        ValidationError::ManagedFieldRoleConflict { object, .. } => Option::Some(object),
        ValidationError::DirectWriteToManagedField { transaction, .. } => Option::Some(transaction),
        ValidationError::InvalidManagedFieldType { object, .. } => Option::Some(object),
        ValidationError::UnknownResultErrorClass { operation, .. } => Option::Some(operation),
        ValidationError::MissingResultErrorArm { operation, .. } => Option::Some(operation),
        ValidationError::UnexpectedResultErrorArm { operation, .. } => Option::Some(operation),
        ValidationError::EmptyRoutingKey { router, .. } => Option::Some(router),
        ValidationError::RoutingWithoutGrouping { input, .. } => Option::Some(input),
        ValidationError::GroupingKeySchemaNotOnTopic { subject, .. } => Option::Some(subject),
        ValidationError::GroupingKeyMissingSchema { subject, .. } => Option::Some(subject),
        ValidationError::EmptyGroupingKey { subject, .. } => Option::Some(subject),
        ValidationError::GroupingKeyArityMismatch { subject, .. } => Option::Some(subject),
        ValidationError::WithinGroupWithoutGrouping { subject, .. } => Option::Some(subject),
        ValidationError::TransportSemanticsAtBothScopes { input, .. } => Option::Some(input),
        ValidationError::DuplicateRouterForBoundary { second, .. } => Option::Some(second),
        ValidationError::EmptyPartitionKey { layout, .. } => Option::Some(layout),
        ValidationError::DuplicateStorageLayoutForObject { second, .. } => Option::Some(second),
        ValidationError::TransactionObjectOutsideDataModel { transaction, .. } => Option::Some(transaction),
        ValidationError::TransactionMissingDataModel { transaction, .. } => Option::Some(transaction),
        ValidationError::TransactionReadOutsideTransaction { subject, .. } => Option::Some(subject),
        ValidationError::TransactionReadOutOfOrder { transaction, .. } => Option::Some(transaction),
        ValidationError::TransactionReadFieldNotSelected { transaction, .. } => Option::Some(transaction),
        ValidationError::StateTransitionSubjectMismatch { transaction, .. } => Option::Some(transaction),
        ValidationError::EmptyObjectIdentity { object, .. } => Option::Some(object),
        ValidationError::InvalidInputKind { subject, .. } => Option::Some(subject),
        ValidationError::ProgramNotTerminated { operation, .. } => Option::Some(operation),
        ValidationError::UnreachableProgramStep { operation, .. } => Option::Some(operation),
        ValidationError::TransactionArtifactNotAvailable { operation, .. } => Option::Some(operation),
        ValidationError::EffectResultNotBound { operation, .. } => Option::Some(operation),
        ValidationError::EffectResultVariantOutOfScope { operation, .. } => Option::Some(operation),
        ValidationError::EffectHasNoResult { operation, .. } => Option::Some(operation),
        ValidationError::ExternalIdempotencyRequiresIdentity { effect, .. } => Option::Some(effect),
        ValidationError::ExternalReplayStabilityRequiresIdentity { effect, .. } => Option::Some(effect),
        ValidationError::ExternalResultReplayWithoutResult { effect, .. } => Option::Some(effect),
        ValidationError::EmptyJoinAll { operation, .. } => Option::Some(operation),
        ValidationError::RaceRequiresTwoHandles { operation, .. } => Option::Some(operation),
        ValidationError::DuplicateSynchronizationHandle { operation, .. } => Option::Some(operation),
        ValidationError::AsyncHandleNotAvailable { operation, .. } => Option::Some(operation),
        ValidationError::RaceResultContractMismatch { operation, .. } => Option::Some(operation),
        ValidationError::EffectKindNotAsyncCapable { operation, .. } => Option::Some(operation),
        ValidationError::OutboxWithoutConsumer { outbox, .. } => Option::Some(outbox),
        ValidationError::OutboxMultipleConsumers { input, .. } => Option::Some(input),
        ValidationError::OutboxWriteMessageNotAdmitted { effect, .. } => Option::Some(effect),
        ValidationError::OutboxMessageIdentitySchemaNotAdmitted { outbox, .. } => Option::Some(outbox),
        ValidationError::EmptyOutboxMessageIdentity { outbox, .. } => Option::Some(outbox),
        ValidationError::OutboxMessageIdentityArityMismatch { outbox, .. } => Option::Some(outbox),
        ValidationError::OutboxOutsideDataModel { effect, .. } => Option::Some(effect),
        ValidationError::OutboxWriteMissingDataModel { effect, .. } => Option::Some(effect),
        ValidationError::OutboxWriteOutsideTransaction { operation, .. } => Option::Some(operation),
        ValidationError::OutboxWriteCannotBeIntent { effect, .. } => Option::Some(effect),
        ValidationError::OutboxPartitionSchemaNotAdmitted { input, .. } => Option::Some(input),
        ValidationError::OutboxPartitionMissingSchema { input, .. } => Option::Some(input),
        ValidationError::EmptyOutboxPartitionKey { input, .. } => Option::Some(input),
        ValidationError::OutboxPartitionKeyArityMismatch { input, .. } => Option::Some(input),
        ValidationError::PartitionOrderingWithoutPartitioning { input, .. } => Option::Some(input),
        ValidationError::OutboxRoutingWithoutPartitioning { input, .. } => Option::Some(input),
    }
}

/// A path's owner, or the identifier itself when the path has none.
pub open spec fn owner_or(owner: Option<Id>, id: Id) -> Option<Id> {
    match owner {
        Option::Some(owner) => Option::Some(owner),
        Option::None => Option::Some(id),
    }
}

pub open spec fn owner_description(owner: Option<Id>) -> Seq<char> {
    match owner {
        Option::Some(owner) => "`"@ + owner@ + "`"@,
        Option::None => "no owner"@,
    }
}

pub open spec fn cycle_texts(cycle: Seq<Id>) -> Seq<Seq<char>> {
    cycle.map_values(|id: Id| id@)
}

pub open spec fn validation_message(error: ValidationError) -> Seq<char> {
    match error {
        ValidationError::DuplicateId { id, .. } => "ID `"@ + id@
            + "` is declared more than once in the global model namespace."@,
        ValidationError::InvalidReferenceOwner { reference, expected_owner, .. } => "`"@
            + reference@ + "` is referenced through `"@ + expected_owner@
            + "`, but is not owned by it."@,
        ValidationError::FragmentCycle { cycle } => "Schema fragment derivation contains a cycle: "@
            + joined(cycle_texts(cycle@), " -> "@) + "."@,
        ValidationError::InvalidTransitionOutboxDerivation { transaction, transition, .. } => "Transaction `"@
            + transaction@ + "` applies transition `"@ + transition@
            + "` with `effects` that do not exactly match the transition's declared outbox effects."@,
        ValidationError::TransitionEffectIntentsMismatch { transaction, transition, .. } => "Transaction `"@
            + transaction@ + "` applies transition `"@ + transition@
            + "` with `effect_intents` that do not exactly match the transition's declared side effects."@,
        ValidationError::UnknownReference { subject, reference, expected } => "`"@ + subject@ + "` references unknown "@ + reference_kind_text(expected) + " `"@ + reference@ + "`."@,
        ValidationError::InvalidReferenceKind { subject, reference, expected, actual } => "`"@ + subject@ + "` references `"@ + reference@ + "` as a "@ + reference_kind_text(expected) + ", but it is a "@ + reference_kind_text(actual) + "."@,
        ValidationError::InvalidFieldPath { subject, schema, path } => "Field path `"@ + path.text@ + "` does not resolve against schema `"@ + schema@ + "`."@,
        ValidationError::ValueSourceHasNoSchema { subject, source } => "`"@ + subject@ + "` references fields of `"@ + source@ + "`, but that value source has no modeled payload schema."@,
        ValidationError::ValueSourceOutOfScope { subject, source, owner } => "`"@ + subject@ + "` references `"@ + source@ + "`, which belongs to `"@ + owner@ + "` and is not observable by the invocations that evaluate this reference."@,
        ValidationError::DataObjectSchemaNotCanonical { object, schema } => "Data object `"@ + object@ + "` references non-canonical schema `"@ + schema@ + "`."@,
        ValidationError::SubscriptionMessageNotOnTopic { input, topic, schema } => "Subscription input `"@ + input@ + "` selects schema `"@ + schema@ + "`, which is not carried by topic `"@ + topic@ + "`."@,
        ValidationError::PublicationEffectMessageNotOnTopic { effect, topic, schema } => "Publication effect `"@ + effect@ + "` publishes schema `"@ + schema@ + "` to topic `"@ + topic@ + "`, but the topic does not carry that schema."@,
        ValidationError::MessageIdentitySchemaNotOnTopic { topic, schema } => "Topic `"@ + topic@ + "` declares a message identity for schema `"@ + schema@ + "`, but does not carry that schema."@,
        ValidationError::EmptyMessageIdentity { topic, schema } => "Topic `"@ + topic@ + "` declares an empty message identity for schema `"@ + schema@ + "`."@,
        ValidationError::MessageIdentityArityMismatch { topic, schema, expected, actual } => "Topic `"@ + topic@ + "` maps the message identity of `"@ + schema@ + "` with "@ + decimal(actual as nat) + " field(s), but other mapped schemas use "@ + decimal(expected as nat) + "."@,
        ValidationError::EmptyRequestIdentity { input } => "Request input `"@ + input@ + "` declares a keyed identity with no fields."@,
        ValidationError::TransactionRequirementKeyUnavailable { operation, location, transaction, family, requirement, key, reason } => "The key of "@ + family_text(family) + " requirement "@ + decimal(requirement as nat) + " of `"@ + transaction@ + "` (step `"@ + location.label@ + "` of `"@ + operation@ + "`), `"@ + crate::model::source_id(key.source)@ + "."@ + key.path.text@ + "`, is not available when the transaction begins: "@ + unavailability_text(reason) + "."@,
        ValidationError::TransactionOrderingPositionUnavailable { operation, location, transaction, requirement, position, reason } => "The position of ordering requirement "@ + decimal(requirement as nat) + " of `"@ + transaction@ + "` (step `"@ + location.label@ + "` of `"@ + operation@ + "`), `"@ + crate::model::source_id(position.source)@ + "."@ + position.path.text@ + "`, is not available when the transaction begins: "@ + unavailability_text(reason) + "."@,
        ValidationError::TransactionOrderingPositionNotOrderedScalar { operation, transaction, requirement, position, found } => "The position of ordering requirement "@ + decimal(requirement as nat) + " of `"@ + transaction@ + "` in `"@ + operation@ + "`, `"@ + crate::model::source_id(position.source)@ + "."@ + position.path.text@ + "`, is "@ + found@ + "; an ordering position must be a non-optional int, decimal, or timestamp."@,
        ValidationError::MissingTransactionRejectedArm { operation, location, transaction, step } => "Transaction `"@ + transaction@ + "` at step `"@ + location.label@ + "` of `"@ + operation@ + "` can reject — its step "@ + decimal((step + 1) as nat) + " is a commit guard — but the step declares no `rejected` block."@,
        ValidationError::UnexpectedTransactionRejectedArm { operation, location, transaction } => "Transaction `"@ + transaction@ + "` at step `"@ + location.label@ + "` of `"@ + operation@ + "` declares a `rejected` block, but no step of its body can reject."@,
        ValidationError::UnknownTransitionOutbox { machine, transition, effect, outbox } => "Transition `"@ + transition@ + "` of `"@ + machine@ + "` admits `"@ + effect@ + "` to outbox `"@ + outbox@ + "`, which no data model declares."@,
        ValidationError::InvalidTransitionOutboxSchema { machine, transition, effect, outbox, schema } => "Transition `"@ + transition@ + "` of `"@ + machine@ + "` admits schema `"@ + schema@ + "` to outbox `"@ + outbox@ + "` through `"@ + effect@ + "`, but that schema is not one the outbox admits."@,
        ValidationError::TransitionOutboxOutsideDataModel { machine, transition, effect, outbox, data_model } => "Transition `"@ + transition@ + "` of `"@ + machine@ + "` admits `"@ + effect@ + "` to outbox `"@ + outbox@ + "`, which does not belong to `"@ + data_model@ + "`, the data model that owns the machine's subject."@,
        ValidationError::InvalidObjectVersionField { object, field, defect } => "Data object `"@ + object@ + "` declares `"@ + field.text@ + "` as its version field, but "@ + version_defect_text(defect) + "."@,
        ValidationError::DirectWriteToVersionField { transaction, step, object, field } => "Step "@ + decimal((step + 1) as nat) + " of transaction `"@ + transaction@ + "` writes `"@ + field.text@ + "` of `"@ + object@ + "`, the object's version field."@,
        ValidationError::MissingVersionBump { transaction, step, object } => "Step "@ + decimal((step + 1) as nat) + " of transaction `"@ + transaction@ + "` mutates versioned object `"@ + object@ + "` without a `bump_version` of the same selected instance."@,
        ValidationError::DuplicateVersionBump { transaction, step, object } => "Step "@ + decimal((step + 1) as nat) + " of transaction `"@ + transaction@ + "` bumps the version of an `"@ + object@ + "` instance an earlier step already bumps."@,
        ValidationError::VersionValidationWithoutObservedVersion { transaction, step, object } => "Step "@ + decimal((step + 1) as nat) + " of transaction `"@ + transaction@ + "` validates the version of `"@ + object@ + "` against a value that is not a preceding read of that instance's version field."@,
        ValidationError::VersionProtocolOnUnversionedObject { transaction, step, object } => "Step "@ + decimal((step + 1) as nat) + " of transaction `"@ + transaction@ + "` applies the version protocol to `"@ + object@ + "`, which declares no version."@,
        ValidationError::ManagedFieldRoleConflict { object, field, first, second } => "Field `"@ + field.text@ + "` of `"@ + object@ + "` is used as a "@ + managed_role_text(first) + " and as a "@ + managed_role_text(second) + "."@,
        ValidationError::DirectWriteToManagedField { transaction, step, object, field, role } => "Step "@ + decimal((step + 1) as nat) + " of transaction `"@ + transaction@ + "` writes `"@ + field.text@ + "` of `"@ + object@ + "`, a managed "@ + managed_role_text(role) + " field."@,
        ValidationError::InvalidManagedFieldType { object, field, role, defect } => "Field `"@ + field.text@ + "` of `"@ + object@ + "` is used as a "@ + managed_role_text(role) + ", but "@ + managed_defect_text(defect) + "."@,
        ValidationError::UnknownResultErrorClass { operation, location, request, error } => "Program step `"@ + location.label@ + "` of `"@ + operation@ + "` returns error class `"@ + error@ + "` for `"@ + request@ + "`, which declares no such class."@,
        ValidationError::MissingResultErrorArm { operation, location, result, error } => "Program step `"@ + location.label@ + "` of `"@ + operation@ + "` matches `"@ + result@ + "` without an arm for its error class `"@ + error@ + "`."@,
        ValidationError::UnexpectedResultErrorArm { operation, location, result, error } => "Program step `"@ + location.label@ + "` of `"@ + operation@ + "` matches `"@ + result@ + "` with an arm for `"@ + error@ + "`, which is not an error class of its contract."@,
        ValidationError::EmptyRoutingKey { router } => "`"@ + router@ + "` declares a routing block with an empty key, which names no routing domain."@,
        ValidationError::RoutingWithoutGrouping { operation, input, topic } => "`"@ + input@ + "` of `"@ + operation@ + "` dispatches by `grouping_key`, but no keyed grouping is in effect for `"@ + topic@ + "`."@,
        ValidationError::GroupingKeySchemaNotOnTopic { subject, topic, schema } => "The grouping key maps `"@ + schema@ + "`, which `"@ + topic@ + "` does not carry."@,
        ValidationError::GroupingKeyMissingSchema { subject, topic, schema } => "The grouping key leaves `"@ + schema@ + "`, carried by `"@ + topic@ + "`, unmapped."@,
        ValidationError::EmptyGroupingKey { subject, schema } => "The grouping key maps `"@ + schema@ + "` to an empty tuple."@,
        ValidationError::GroupingKeyArityMismatch { subject, schema, expected, actual } => "The grouping key maps `"@ + schema@ + "` to "@ + decimal(actual as nat) + " field(s), but other schemas map "@ + decimal(expected as nat) + "."@,
        ValidationError::WithinGroupWithoutGrouping { subject } => "`ordering: within_group` is declared where no keyed grouping is declared at the same scope."@,
        ValidationError::TransportSemanticsAtBothScopes { topic, operation, input } => "`"@ + topic@ + "` declares transport semantics for all its subscriptions, and `"@ + input@ + "` of `"@ + operation@ + "` declares its own."@,
        ValidationError::DuplicateRouterForBoundary { first, second, operation, input } => "`"@ + first@ + "` and `"@ + second@ + "` both route the request boundary `"@ + operation@ + "`/`"@ + input@ + "`."@,
        ValidationError::EmptyPartitionKey { layout } => "`"@ + layout@ + "` declares an empty partition key, which identifies no physical partition."@,
        ValidationError::DuplicateStorageLayoutForObject { first, second, data_model, object } => "`"@ + first@ + "` and `"@ + second@ + "` both declare a storage layout for `"@ + data_model@ + "`/`"@ + object@ + "`."@,
        ValidationError::TransactionObjectOutsideDataModel { transaction, data_model, object } => "Transaction `"@ + transaction@ + "` accesses object `"@ + object@ + "`, which does not belong to its declared data model `"@ + data_model@ + "`."@,
        ValidationError::TransactionMissingDataModel { transaction, object } => "Transaction `"@ + transaction@ + "` accesses data object `"@ + object@ + "` but declares no data-model boundary."@,
        ValidationError::TransactionReadOutsideTransaction { subject, read } => "`"@ + subject@ + "` references transaction-read result `"@ + read@ + "` outside the transaction execution that produces it."@,
        ValidationError::TransactionReadOutOfOrder { transaction, read } => "Transaction `"@ + transaction@ + "` references transaction-read result `"@ + read@ + "` before the step that reads it."@,
        ValidationError::TransactionReadFieldNotSelected { transaction, read, path } => "Transaction-read result `"@ + read@ + "` is referenced through field path `"@ + path.text@ + "`, which the read does not select."@,
        ValidationError::StateTransitionSubjectMismatch { transaction, machine, expected_object, actual_object } => "State-machine transition for `"@ + machine@ + "` selects data object `"@ + actual_object@ + "`, but the state machine governs `"@ + expected_object@ + "`."@,
        ValidationError::EmptyObjectIdentity { object } => "Data object `"@ + object@ + "` declares an empty identity."@,
        ValidationError::InvalidInputKind { subject, input, expected, actual } => "`"@ + input@ + "` is referenced as a "@ + input_kind_text(expected) + ", but it is a "@ + input_kind_text(actual) + "."@,
        ValidationError::ProgramNotTerminated { operation } => "The program of `"@ + operation@ + "` can fall off the end of its last step without reaching a terminal."@,
        ValidationError::UnreachableProgramStep { operation, location } => "Program step `"@ + location.label@ + "` of `"@ + operation@ + "` is unreachable: it follows a terminal in its block."@,
        ValidationError::TransactionArtifactNotAvailable { operation, location, artifact, consumer } => "Program step `"@ + location.label@ + "` of `"@ + operation@ + "` consumes transaction artifact `"@ + artifact@ + "` in "@ + program_use_text(consumer) + ", but no transaction on every path reaching that step establishes or recovers it."@,
        ValidationError::EffectResultNotBound { operation, location, result, consumer } => "Program step `"@ + location.label@ + "` of `"@ + operation@ + "` uses effect result `"@ + result@ + "` in "@ + program_use_text(consumer) + ", but no effect-executing step on every path reaching it binds that result."@,
        ValidationError::EffectResultVariantOutOfScope { operation, location, result, variant, consumer } => "Program step `"@ + location.label@ + "` of `"@ + operation@ + "` references the `"@ + crate::validation::reference::variant_text(variant) + "` payload of `"@ + result@ + "` in "@ + program_use_text(consumer) + ", outside the `"@ + crate::validation::reference::variant_text(variant) + "` arm of a match on that result."@,
        ValidationError::EffectHasNoResult { operation, location, effect, result } => "Program step `"@ + location.label@ + "` of `"@ + operation@ + "` binds result `"@ + result@ + "` of effect `"@ + effect@ + "`, whose contract has no synchronous result."@,
        ValidationError::ExternalIdempotencyRequiresIdentity { effect } => "External effect `"@ + effect@ + "` declares `idempotency: identical_per_identity` with `identity: unspecified`."@,
        ValidationError::ExternalReplayStabilityRequiresIdentity { effect } => "External effect `"@ + effect@ + "` declares `result_replay: replay_stable` with `identity: unspecified`."@,
        ValidationError::ExternalResultReplayWithoutResult { effect } => "External effect `"@ + effect@ + "` declares a `result_replay` behaviour but no `result` contract."@,
        ValidationError::EmptyJoinAll { operation, location } => "Program step `"@ + location.label@ + "` of `"@ + operation@ + "` is a `join_all` with no handles."@,
        ValidationError::RaceRequiresTwoHandles { operation, location, count } => "Program step `"@ + location.label@ + "` of `"@ + operation@ + "` is a `race` over "@ + decimal(count as nat) + " handle(s); a race requires at least two candidates."@,
        ValidationError::DuplicateSynchronizationHandle { operation, location, handle, consumer } => "Program step `"@ + location.label@ + "` of `"@ + operation@ + "` references async handle `"@ + handle@ + "` more than once in "@ + program_use_text(consumer) + "."@,
        ValidationError::AsyncHandleNotAvailable { operation, location, handle, consumer } => "Program step `"@ + location.label@ + "` of `"@ + operation@ + "` waits on async handle `"@ + handle@ + "` in "@ + program_use_text(consumer) + ", but no async launch on every path reaching that step binds it."@,
        ValidationError::RaceResultContractMismatch { operation, location, bind, first, second } => "Program step `"@ + location.label@ + "` of `"@ + operation@ + "` binds race result `"@ + bind@ + "`, but candidate effects `"@ + first@ + "` and `"@ + second@ + "` do not expose the same logical result contract."@,
        ValidationError::EffectKindNotAsyncCapable { operation, location, effect } => "Program step `"@ + location.label@ + "` of `"@ + operation@ + "` launches effect `"@ + effect@ + "` asynchronously, but its effect kind does not permit direct asynchronous execution."@,
        ValidationError::OutboxWithoutConsumer { outbox } => "Outbox `"@ + outbox@ + "` has no consuming outbox input; exactly one `OutboxInput` must reference it."@,
        ValidationError::OutboxMultipleConsumers { outbox, first_operation, first_input, operation, input } => "Outbox input `"@ + input@ + "` of `"@ + operation@ + "` references outbox `"@ + outbox@ + "`, which `"@ + first_input@ + "` of `"@ + first_operation@ + "` already consumes; exactly one `OutboxInput` may reference an outbox."@,
        ValidationError::OutboxWriteMessageNotAdmitted { effect, outbox, schema } => "Outbox write `"@ + effect@ + "` admits schema `"@ + schema@ + "` to outbox `"@ + outbox@ + "`, but the outbox does not admit that schema."@,
        ValidationError::OutboxMessageIdentitySchemaNotAdmitted { outbox, schema } => "Outbox `"@ + outbox@ + "` declares a message identity for schema `"@ + schema@ + "`, but does not admit that schema."@,
        ValidationError::EmptyOutboxMessageIdentity { outbox, schema } => "Outbox `"@ + outbox@ + "` declares an empty message identity for schema `"@ + schema@ + "`."@,
        ValidationError::OutboxMessageIdentityArityMismatch { outbox, schema, expected, actual } => "Outbox `"@ + outbox@ + "` maps the message identity of `"@ + schema@ + "` with "@ + decimal(actual as nat) + " field(s), but other mapped schemas use "@ + decimal(expected as nat) + "."@,
        ValidationError::OutboxOutsideDataModel { transaction, effect, data_model, outbox } => "Outbox write `"@ + effect@ + "` in transaction `"@ + transaction@ + "` targets outbox `"@ + outbox@ + "`, which does not belong to the transaction's data model `"@ + data_model@ + "`."@,
        ValidationError::OutboxWriteMissingDataModel { transaction, effect, outbox } => "Outbox write `"@ + effect@ + "` targets outbox `"@ + outbox@ + "`, but its transaction `"@ + transaction@ + "` declares no data model."@,
        ValidationError::OutboxWriteOutsideTransaction { operation, effect } => "`"@ + operation@ + "` executes outbox write `"@ + effect@ + "` outside a transaction."@,
        ValidationError::OutboxWriteCannotBeIntent { transaction, effect } => "Transaction `"@ + transaction@ + "` establishes outbox write `"@ + effect@ + "` as an effect intent."@,
        ValidationError::OutboxPartitionSchemaNotAdmitted { input, outbox, schema } => "The outbox runtime of `"@ + input@ + "` maps a partition key for schema `"@ + schema@ + "`, which outbox `"@ + outbox@ + "` does not admit."@,
        ValidationError::OutboxPartitionMissingSchema { input, outbox, schema } => "The outbox runtime of `"@ + input@ + "` declares keyed partitioning but maps no partition key for `"@ + schema@ + "`, which the input admits from outbox `"@ + outbox@ + "`."@,
        ValidationError::EmptyOutboxPartitionKey { input, schema } => "The outbox runtime of `"@ + input@ + "` maps `"@ + schema@ + "` to an empty partition-key tuple, which names no partition."@,
        ValidationError::OutboxPartitionKeyArityMismatch { input, schema, expected, actual } => "The outbox runtime of `"@ + input@ + "` maps the partition key of `"@ + schema@ + "` with "@ + decimal(actual as nat) + " field(s), but other mapped schemas use "@ + decimal(expected as nat) + "."@,
        ValidationError::PartitionOrderingWithoutPartitioning { input } => "The outbox runtime of `"@ + input@ + "` declares `ordering: partition` with `partitioning: none`."@,
        ValidationError::OutboxRoutingWithoutPartitioning { operation, input, outbox } => "`"@ + input@ + "` of `"@ + operation@ + "` dispatches by `partition_key`, but the outbox runtime declares `partitioning: none` for `"@ + outbox@ + "`."@,
    }
}

/// The evidence of a missing or unexpected derivation, one per effect.
pub open spec fn listed_evidence(effects: Seq<Id>, lead: Seq<char>, tail: Seq<char>) -> Seq<
    (Option<Id>, Seq<char>),
> {
    effects.map_values(|effect: Id| (Option::Some(effect), lead + effect@ + tail))
}

pub open spec fn validation_evidence(error: ValidationError) -> Seq<(Option<Id>, Seq<char>)> {
    match error {
        ValidationError::DuplicateId { id, first, second } => seq![
            (owner_or(first.owner, id), declaration_text(first)),
            (owner_or(second.owner, id), declaration_text(second)),
        ],
        ValidationError::InvalidReferenceOwner { reference, expected_owner, actual_owner, .. } => seq![
            (
                Option::Some(reference),
                "Expected owner `"@ + expected_owner@ + "`, found "@ + owner_description(
                    actual_owner,
                ) + "."@,
            ),
        ],
        ValidationError::FragmentCycle { .. } => Seq::empty(),
        ValidationError::InvalidTransitionOutboxDerivation { transition, missing, unexpected, .. } => listed_evidence(
            missing@,
            "The transition declares outbox effect `"@,
            "`, but the step provides no message derivation for it."@,
        ) + listed_evidence(
            unexpected@,
            "The step provides a derivation for `"@,
            "`, which is not an outbox effect declared by transition `"@ + transition@ + "`."@,
        ),
        ValidationError::TransitionEffectIntentsMismatch { transition, missing, unexpected, .. } => listed_evidence(
            missing@,
            "The transition declares side effect `"@,
            "`, but the step provides no intent binding and value derivation for it."@,
        ) + listed_evidence(
            unexpected@,
            "The step provides an intent binding for `"@,
            "`, which is not a side effect declared by transition `"@ + transition@ + "`."@,
        ),
        ValidationError::UnknownReference { subject, reference, expected } => seq![(Option::Some(reference), "Expected this ID to resolve to a "@ + reference_kind_text(expected) + "."@)],
        ValidationError::InvalidReferenceKind { subject, reference, expected, actual } => seq![(Option::Some(reference), "Expected "@ + reference_kind_text(expected) + ", found "@ + reference_kind_text(actual) + "."@)],
        ValidationError::InvalidFieldPath { subject, schema, path } => seq![(Option::Some(schema), "Could not resolve field path `"@ + path.text@ + "` from this schema."@)],
        ValidationError::ValueSourceHasNoSchema { subject, source } => seq![(Option::Some(source), "A field path can only be resolved from a structurally typed value source."@)],
        ValidationError::ValueSourceOutOfScope { subject, source, owner } => seq![(Option::Some(owner), "A value reference may only name inputs, effects, transaction outputs, and effect results reachable from the operation whose invocation evaluates it."@)],
        ValidationError::DataObjectSchemaNotCanonical { object, schema } => seq![(Option::Some(schema), "A data object's state must be described by a canonical schema."@)],
        ValidationError::SubscriptionMessageNotOnTopic { input, topic, schema } => seq![(Option::Some(topic), "Topic does not declare schema `"@ + schema@ + "` as a message."@)],
        ValidationError::PublicationEffectMessageNotOnTopic { effect, topic, schema } => seq![(Option::Some(topic), "Topic does not declare schema `"@ + schema@ + "` as a message."@)],
        ValidationError::MessageIdentitySchemaNotOnTopic { topic, schema } => seq![(Option::Some(schema), "Message-identity mappings may only reference message schemas carried by the topic."@)],
        ValidationError::EmptyMessageIdentity { topic, schema } => seq![(Option::Some(schema), "A mapped schema must declare the complete, non-empty identity of one logical message."@)],
        ValidationError::MessageIdentityArityMismatch { topic, schema, expected, actual } => seq![(Option::Some(schema), "Identity tuple positions correspond across schemas, so every mapped tuple must have the same arity."@)],
        ValidationError::EmptyRequestIdentity { input } => seq![(Option::Some(input), "A keyed request identity must declare the complete, non-empty identity of one logical request."@)],
        ValidationError::TransactionRequirementKeyUnavailable { operation, location, transaction, family, requirement, key, reason } => seq![(Option::Some(transaction), "A transaction requirement key identifies the conflict domain before the transaction executes, so it may derive only from an input, a prior transaction output, or a synchronous result already bound on every reaching path — never from a read the transaction itself performs."@)],
        ValidationError::TransactionOrderingPositionUnavailable { operation, location, transaction, requirement, position, reason } => seq![(Option::Some(transaction), "An ordering position is the transaction's logical precedence within its domain, fixed before it executes: an input, a prior transaction output, or a synchronous result already bound on every reaching path."@)],
        ValidationError::TransactionOrderingPositionNotOrderedScalar { operation, transaction, requirement, position, found } => seq![(Option::Some(transaction), "`float` is excluded because NaN and implementation-specific comparison make it no total order; `uuid`, `bool`, structured schemas, and lists are not positions."@)],
        ValidationError::MissingTransactionRejectedArm { operation, location, transaction, step } => seq![(Option::Some(transaction), "A transition, version validation, cursor advance, or fence may conclusively fail at commit; the operation must say what control does then. Declare `rejected` with the block control enters when the transaction rejects."@)],
        ValidationError::UnexpectedTransactionRejectedArm { operation, location, transaction } => seq![(Option::Some(transaction), "Only a transition, version validation, cursor advance, or fence rejects; a transaction without one either commits or is interrupted, and interruption never enters `rejected`. Remove the block."@)],
        ValidationError::UnknownTransitionOutbox { machine, transition, effect, outbox } => seq![(Option::Some(outbox), "A transition-scoped outbox write names an outbox of the data model that owns the machine's subject object."@)],
        ValidationError::InvalidTransitionOutboxSchema { machine, transition, effect, outbox, schema } => seq![(Option::Some(schema), "The admitted schema must be declared and listed among the outbox's messages."@)],
        ValidationError::TransitionOutboxOutsideDataModel { machine, transition, effect, outbox, data_model } => seq![(Option::Some(outbox), "A transition-scoped admission is atomic with the transaction that applies the transition, and that transaction's atomic boundary is the subject's data model; Conseqa never infers a distributed cross-data-model atomic commit."@)],
        ValidationError::InvalidObjectVersionField { object, field, defect } => seq![(Option::Some(object), "A version field is a non-optional int outside the object's identity, managed by the version protocol alone."@)],
        ValidationError::DirectWriteToVersionField { transaction, step, object, field } => seq![(Option::Some(object), "A version is never assigned through a derivation: `insert` creates the initial version and `bump_version` advances it."@)],
        ValidationError::MissingVersionBump { transaction, step, object } => seq![(Option::Some(object), "Every write or transition of a live versioned instance must be accompanied by a `bump_version` whose selector is exactly the mutation's, so a validating reader detects the mutation at commit."@)],
        ValidationError::DuplicateVersionBump { transaction, step, object } => seq![(Option::Some(object), "One transaction bumps one selected instance at most once: the version advances by exactly one per successful commit."@)],
        ValidationError::VersionValidationWithoutObservedVersion { transaction, step, object } => seq![(Option::Some(object), "`expected` must be `transaction_read:<bind>.<version field>` of an earlier read that selects the same instance and covers the version field; only an observed version makes the validation a commit guard."@)],
        ValidationError::VersionProtocolOnUnversionedObject { transaction, step, object } => seq![(Option::Some(object), "Declare `version` on the data object before validating or bumping it."@)],
        ValidationError::ManagedFieldRoleConflict { object, field, first, second } => seq![(Option::Some(object), "A managed field has exactly one semantic role: a version, a cursor under one rule, or a fence."@)],
        ValidationError::DirectWriteToManagedField { transaction, step, object, field, role } => seq![(Option::Some(object), "A cursor advances only through `advance_cursor` and a fence only through `fence`; an ordinary write would break the order their proofs rest on. Insert initialization remains permitted."@)],
        ValidationError::InvalidManagedFieldType { object, field, role, defect } => seq![(Option::Some(object), "A successor cursor is a non-optional int; a monotonic cursor or a fence is a non-optional int, decimal, or timestamp; and the value driving it has the field's type."@)],
        ValidationError::UnknownResultErrorClass { operation, location, request, error } => seq![(Option::Some(request), "A returned error names one of the classes in the request's result contract; its derivation must match that class's schema."@)],
        ValidationError::MissingResultErrorArm { operation, location, result, error } => seq![(Option::Some(result), "Error arms are explicit and exhaustive over the result contract's error classes."@)],
        ValidationError::UnexpectedResultErrorArm { operation, location, result, error } => seq![(Option::Some(result), "Only the classes the result contract declares have arms."@)],
        ValidationError::EmptyRoutingKey { router } => seq![(Option::Some(router), "A routing key must name at least one field; omit the routing block entirely to declare no member affinity."@)],
        ValidationError::RoutingWithoutGrouping { operation, input, topic } => seq![(Option::Some(topic), "Declare a keyed `grouping` — on this topic's runtime, or on this subscription if the topic declares no transport semantics — or omit the routing block."@)],
        ValidationError::GroupingKeySchemaNotOnTopic { subject, topic, schema } => seq![(Option::Some(topic), "A grouping key may only map schemas the topic carries."@)],
        ValidationError::GroupingKeyMissingSchema { subject, topic, schema } => seq![(Option::Some(schema), "A grouping key must place every carried message in some group; an unmapped schema would belong to none."@)],
        ValidationError::EmptyGroupingKey { subject, schema } => seq![(Option::Some(schema), "A grouping key tuple must name at least one field."@)],
        ValidationError::GroupingKeyArityMismatch { subject, schema, expected, actual } => seq![(Option::Some(schema), "Tuple positions correspond across schemas, so every mapped tuple shares one arity."@)],
        ValidationError::WithinGroupWithoutGrouping { subject } => seq![(Option::Some(subject), "Declare the grouping the guarantee is about, or use `ordering: global` or `none`."@)],
        ValidationError::TransportSemanticsAtBothScopes { topic, operation, input } => seq![(Option::Some(topic), "Grouping and ordering are declared either once for the topic or independently per subscription, never at both. There is no override."@)],
        ValidationError::DuplicateRouterForBoundary { first, second, operation, input } => seq![(Option::Some(first), "One request boundary has at most one router, so its execution-pool assignment is unambiguous."@)],
        ValidationError::EmptyPartitionKey { layout } => seq![(Option::Some(layout), "A partition key must name at least one field of the object's schema."@)],
        ValidationError::DuplicateStorageLayoutForObject { first, second, data_model, object } => seq![(Option::Some(first), "V1 admits at most one primary storage layout per data object."@)],
        ValidationError::TransactionObjectOutsideDataModel { transaction, data_model, object } => seq![(Option::Some(object), "This object is outside data model `"@ + data_model@ + "`."@)],
        ValidationError::TransactionMissingDataModel { transaction, object } => seq![(Option::Some(object), "Access to a persistent data object requires the transaction to declare its data model."@)],
        ValidationError::TransactionReadOutsideTransaction { subject, read } => seq![(Option::Some(read), "A transaction-read result is local to its transaction execution and never becomes a durable cross-transaction artifact."@)],
        ValidationError::TransactionReadOutOfOrder { transaction, read } => seq![(Option::Some(read), "A transaction-read result may only be referenced by steps that follow the read in transaction program order."@)],
        ValidationError::TransactionReadFieldNotSelected { transaction, read, path } => seq![(Option::Some(read), "This read does not include `"@ + path.text@ + "` in its field selection."@)],
        ValidationError::StateTransitionSubjectMismatch { transaction, machine, expected_object, actual_object } => seq![(Option::Some(machine), "This state machine governs data object `"@ + expected_object@ + "`."@), (Option::Some(actual_object), "This data object is selected as the subject of the transaction's state transition."@)],
        ValidationError::EmptyObjectIdentity { object } => seq![(Option::Some(object), "Every data object must declare the complete, non-empty logical identity of one instance."@)],
        ValidationError::InvalidInputKind { subject, input, expected, actual } => seq![(Option::Some(input), "Expected "@ + input_kind_text(expected) + ", found "@ + input_kind_text(actual) + "."@)],
        ValidationError::ProgramNotTerminated { operation } => seq![(Option::Some(operation), "Every reachable path through an operation program must end at an explicit `return` or `complete` step."@)],
        ValidationError::UnreachableProgramStep { operation, location } => seq![(Option::Some(operation), "A `return` or `complete` step, or a decision whose every arm terminates, ends its block; no step may follow it there."@)],
        ValidationError::TransactionArtifactNotAvailable { operation, location, artifact, consumer } => seq![(Option::Some(artifact), "A transaction output or effect intent may be consumed only where control flow definitely establishes it: after a transaction that establishes it on every incoming path."@)],
        ValidationError::EffectResultNotBound { operation, location, result, consumer } => seq![(Option::Some(result), "A result binding is available only after the step that binds it, on every path reaching the use."@)],
        ValidationError::EffectResultVariantOutOfScope { operation, location, result, variant, consumer } => seq![(Option::Some(result), "A variant payload is arm-local: `effect_result_ok` is available only inside the `ok` arm of a `match_result` on the binding, and `effect_result_err` only inside the `err` arm."@)],
        ValidationError::EffectHasNoResult { operation, location, effect, result } => seq![(Option::Some(effect), "A publication produces no synchronous result, and an external effect produces one only when it declares a `result` contract; a request inherits its target input's contract."@)],
        ValidationError::ExternalIdempotencyRequiresIdentity { effect } => seq![(Option::Some(effect), "`identical_per_identity` is quantified over applications of one logical external interaction; a keyed `identity` is what defines which applications those are. Declare `identity: keyed` with the interaction key, or use `side_effect_free` for a keyless universal guarantee."@)],
        ValidationError::ExternalReplayStabilityRequiresIdentity { effect } => seq![(Option::Some(effect), "A replay-fixed terminal result is a fact about one logical external interaction; a keyed `identity` is what defines which applications share it. Declare `identity: keyed` with the interaction key, or leave `result_replay` at `unspecified` or `unstable`."@)],
        ValidationError::ExternalResultReplayWithoutResult { effect } => seq![(Option::Some(effect), "`unstable` and `replay_stable` describe the replay behaviour of the boundary's synchronous result; an effect declaring `result: null` has none to describe. Declare the result contract, or leave `result_replay: unspecified`."@)],
        ValidationError::EmptyJoinAll { operation, location } => seq![(Option::Some(operation), "A `join_all` must reference at least one definitely available async handle; an empty barrier waits on nothing."@)],
        ValidationError::RaceRequiresTwoHandles { operation, location, count } => seq![(Option::Some(operation), "A first-completion barrier over fewer than two candidates decides nothing; to await one handle, use a single-handle `join_all`."@)],
        ValidationError::DuplicateSynchronizationHandle { operation, location, handle, consumer } => seq![(Option::Some(handle), "Each handle identifies one asynchronous execution occurrence and may appear at most once per synchronization step."@)],
        ValidationError::AsyncHandleNotAvailable { operation, location, handle, consumer } => seq![(Option::Some(handle), "An async handle follows the operation-local definite-availability discipline: it may be synchronized only after the launch that binds it, on every path reaching the synchronization."@)],
        ValidationError::RaceResultContractMismatch { operation, location, bind, first, second } => seq![(Option::Some(bind), "A result-binding race observes whichever candidate completes first, so every candidate must be result-bearing with one logical result contract; drop `bind` to race heterogeneous effects."@)],
        ValidationError::EffectKindNotAsyncCapable { operation, location, effect } => seq![(Option::Some(effect), "Each effect kind explicitly declares whether `execute_effect_async` may launch it; none becomes async-capable merely by being an effect."@)],
        ValidationError::OutboxWithoutConsumer { outbox } => seq![(Option::Some(outbox), "Consumption is intrinsic to the outbox abstraction: a committed message stays durably pending until successfully consumed, so an outbox without its one consumer would accumulate pending messages forever."@)],
        ValidationError::OutboxMultipleConsumers { outbox, first_operation, first_input, operation, input } => seq![(Option::Some(outbox), "The consuming input's operation is the outbox's exclusive logical consumer of every admitted schema. Downstream fan-out belongs to topics, not outboxes: relay the messages onto a topic and subscribe the other consumers there."@)],
        ValidationError::OutboxWriteMessageNotAdmitted { effect, outbox, schema } => seq![(Option::Some(outbox), "The outbox does not declare schema `"@ + schema@ + "` as a message."@)],
        ValidationError::OutboxMessageIdentitySchemaNotAdmitted { outbox, schema } => seq![(Option::Some(schema), "Message-identity mappings may only reference message schemas the outbox admits."@)],
        ValidationError::EmptyOutboxMessageIdentity { outbox, schema } => seq![(Option::Some(schema), "A mapped schema must declare the complete, non-empty identity of one logical message."@)],
        ValidationError::OutboxMessageIdentityArityMismatch { outbox, schema, expected, actual } => seq![(Option::Some(schema), "Identity tuple positions correspond across schemas, so every mapped tuple must have the same arity."@)],
        ValidationError::OutboxOutsideDataModel { transaction, effect, data_model, outbox } => seq![(Option::Some(outbox), "An outbox write is atomic with its containing transaction's commit, so the destination outbox must belong to the declared data model; Conseqa never infers a distributed cross-data-model atomic transaction."@)],
        ValidationError::OutboxWriteMissingDataModel { transaction, effect, outbox } => seq![(Option::Some(transaction), "A transaction admitting an outbox message must declare the data model that owns the outbox — the atomic boundary the admission participates in."@)],
        ValidationError::OutboxWriteOutsideTransaction { operation, effect } => seq![(Option::Some(effect), "An `OutboxWriteEffect`'s only legal execution site is a transaction's `write_outbox` step: outside one, no containing application transaction exists whose commit could make the admission atomic."@)],
        ValidationError::OutboxWriteCannotBeIntent { transaction, effect } => seq![(Option::Some(transaction), "An outbox message is durable typed application data admitted atomically with a commit, not a captured effect instance for later execution; write it with a `write_outbox` step instead."@)],
        ValidationError::OutboxPartitionSchemaNotAdmitted { input, outbox, schema } => seq![(Option::Some(outbox), "The outbox does not declare schema `"@ + schema@ + "` as a message."@)],
        ValidationError::OutboxPartitionMissingSchema { input, outbox, schema } => seq![(Option::Some(schema), "Every message schema admitted through the target input must map into the common partition-key domain; an unmapped one would belong to no partition."@)],
        ValidationError::EmptyOutboxPartitionKey { input, schema } => seq![],
        ValidationError::OutboxPartitionKeyArityMismatch { input, schema, expected, actual } => seq![(Option::Some(schema), "Partition-key tuple positions correspond across schemas, so every mapped tuple must have the same arity."@)],
        ValidationError::PartitionOrderingWithoutPartitioning { input } => seq![(Option::Some(input), "Partition ordering is an independent order within each keyed partition; without keyed partitioning no domain exists for the guarantee to be interpreted over."@)],
        ValidationError::OutboxRoutingWithoutPartitioning { operation, input, outbox } => seq![(Option::Some(outbox), "Routing consumes an already-declared semantic key rather than inventing one: declare keyed `partitioning`, or omit the routing block."@)],
    }
}

/// Each piece of evidence as its subject and its message's text.
pub open spec fn evidence_pairs(evidence: Seq<Evidence>) -> Seq<(Option<Id>, Seq<char>)> {
    evidence.map_values(|item: Evidence| (item.subject, item.message@))
}

/// `d` is the diagnostic `error` reports.
pub open spec fn validation_diagnostic_is(d: Diagnostic, error: ValidationError) -> bool {
    &&& d.code == DiagnosticCode::Validation(validation_code(error))
    &&& d.severity == Severity::Error
    &&& d.subject == validation_subject(error)
    &&& d.message@ == validation_message(error)
    &&& evidence_pairs(d.evidence@) == validation_evidence(error)
}

/// Appends one piece of evidence per effect: `lead`, the effect, then
/// `tail`.
fn push_listed(evidence: &mut Vec<Evidence>, effects: &Vec<Id>, lead: &str, tail: &str)
    ensures
        evidence_pairs(final(evidence)@) == evidence_pairs(old(evidence)@) + listed_evidence(
            effects@,
            lead@,
            tail@,
        ),
{
    let ghost start = evidence_pairs(evidence@);
    let mut i: usize = 0;
    while i < effects.len()
        invariant
            i <= effects@.len(),
            evidence_pairs(evidence@) == start + listed_evidence(
                effects@.take(i as int),
                lead@,
                tail@,
            ),
        decreases effects@.len() - i,
    {
        let effect = &effects[i];
        let mut message = String::from_str(lead);
        message.append(effect.as_str());
        message.append(tail);
        let ghost before = evidence@;
        evidence.push(Evidence { subject: Option::Some(effect.clone()), message });
        proof {
            assert(evidence_pairs(evidence@) =~= evidence_pairs(before).push(
                (Option::Some(effects@[i as int]), lead@ + effects@[i as int]@ + tail@),
            ));
            assert(listed_evidence(effects@.take(i + 1), lead@, tail@) =~= listed_evidence(
                effects@.take(i as int),
                lead@,
                tail@,
            ).push((Option::Some(effects@[i as int]), lead@ + effects@[i as int]@ + tail@)));
        }
        i += 1;
    }
    proof {
        assert(effects@.take(effects@.len() as int) =~= effects@);
    }
}

impl ValidationError {
    /// The code of this error's kind.
    pub fn code(&self) -> (r: ValidationCode)
        ensures
            r == validation_code(*self),
    {
        match self {
            ValidationError::DuplicateId { .. } => ValidationCode::DuplicateId,
            ValidationError::UnknownReference { .. } => ValidationCode::UnknownReference,
            ValidationError::InvalidReferenceKind { .. } => ValidationCode::InvalidReferenceKind,
            ValidationError::InvalidReferenceOwner { .. } => ValidationCode::InvalidReferenceOwner,
            ValidationError::InvalidFieldPath { .. } => ValidationCode::InvalidFieldPath,
            ValidationError::ValueSourceHasNoSchema { .. } => ValidationCode::ValueSourceHasNoSchema,
            ValidationError::ValueSourceOutOfScope { .. } => ValidationCode::ValueSourceOutOfScope,
            ValidationError::FragmentCycle { .. } => ValidationCode::FragmentCycle,
            ValidationError::DataObjectSchemaNotCanonical { .. } => ValidationCode::DataObjectSchemaNotCanonical,
            ValidationError::SubscriptionMessageNotOnTopic { .. } => ValidationCode::SubscriptionMessageNotOnTopic,
            ValidationError::PublicationEffectMessageNotOnTopic { .. } => ValidationCode::PublicationEffectMessageNotOnTopic,
            ValidationError::MessageIdentitySchemaNotOnTopic { .. } => ValidationCode::MessageIdentitySchemaNotOnTopic,
            ValidationError::EmptyMessageIdentity { .. } => ValidationCode::EmptyMessageIdentity,
            ValidationError::MessageIdentityArityMismatch { .. } => ValidationCode::MessageIdentityArityMismatch,
            ValidationError::EmptyRequestIdentity { .. } => ValidationCode::EmptyRequestIdentity,
            ValidationError::TransactionRequirementKeyUnavailable { .. } => ValidationCode::TransactionRequirementKeyUnavailable,
            ValidationError::TransactionOrderingPositionUnavailable { .. } => ValidationCode::TransactionOrderingPositionUnavailable,
            ValidationError::TransactionOrderingPositionNotOrderedScalar { .. } => ValidationCode::TransactionOrderingPositionNotOrderedScalar,
            ValidationError::MissingTransactionRejectedArm { .. } => ValidationCode::MissingTransactionRejectedArm,
            ValidationError::UnexpectedTransactionRejectedArm { .. } => ValidationCode::UnexpectedTransactionRejectedArm,
            ValidationError::UnknownTransitionOutbox { .. } => ValidationCode::UnknownTransitionOutbox,
            ValidationError::InvalidTransitionOutboxSchema { .. } => ValidationCode::InvalidTransitionOutboxSchema,
            ValidationError::TransitionOutboxOutsideDataModel { .. } => ValidationCode::TransitionOutboxOutsideDataModel,
            ValidationError::InvalidTransitionOutboxDerivation { .. } => ValidationCode::InvalidTransitionOutboxDerivation,
            ValidationError::InvalidObjectVersionField { .. } => ValidationCode::InvalidObjectVersionField,
            ValidationError::DirectWriteToVersionField { .. } => ValidationCode::DirectWriteToVersionField,
            ValidationError::MissingVersionBump { .. } => ValidationCode::MissingVersionBump,
            ValidationError::DuplicateVersionBump { .. } => ValidationCode::DuplicateVersionBump,
            ValidationError::VersionValidationWithoutObservedVersion { .. } => ValidationCode::VersionValidationWithoutObservedVersion,
            ValidationError::VersionProtocolOnUnversionedObject { .. } => ValidationCode::VersionProtocolOnUnversionedObject,
            ValidationError::ManagedFieldRoleConflict { .. } => ValidationCode::ManagedFieldRoleConflict,
            ValidationError::DirectWriteToManagedField { .. } => ValidationCode::DirectWriteToManagedField,
            ValidationError::InvalidManagedFieldType { .. } => ValidationCode::InvalidManagedFieldType,
            ValidationError::UnknownResultErrorClass { .. } => ValidationCode::UnknownResultErrorClass,
            ValidationError::MissingResultErrorArm { .. } => ValidationCode::MissingResultErrorArm,
            ValidationError::UnexpectedResultErrorArm { .. } => ValidationCode::UnexpectedResultErrorArm,
            ValidationError::EmptyRoutingKey { .. } => ValidationCode::EmptyRoutingKey,
            ValidationError::RoutingWithoutGrouping { .. } => ValidationCode::RoutingWithoutGrouping,
            ValidationError::GroupingKeySchemaNotOnTopic { .. } => ValidationCode::GroupingKeySchemaNotOnTopic,
            ValidationError::GroupingKeyMissingSchema { .. } => ValidationCode::GroupingKeyMissingSchema,
            ValidationError::EmptyGroupingKey { .. } => ValidationCode::EmptyGroupingKey,
            ValidationError::GroupingKeyArityMismatch { .. } => ValidationCode::GroupingKeyArityMismatch,
            ValidationError::WithinGroupWithoutGrouping { .. } => ValidationCode::WithinGroupWithoutGrouping,
            ValidationError::TransportSemanticsAtBothScopes { .. } => ValidationCode::TransportSemanticsAtBothScopes,
            ValidationError::DuplicateRouterForBoundary { .. } => ValidationCode::DuplicateRouterForBoundary,
            ValidationError::EmptyPartitionKey { .. } => ValidationCode::EmptyPartitionKey,
            ValidationError::DuplicateStorageLayoutForObject { .. } => ValidationCode::DuplicateStorageLayoutForObject,
            ValidationError::TransactionObjectOutsideDataModel { .. } => ValidationCode::TransactionObjectOutsideDataModel,
            ValidationError::TransactionMissingDataModel { .. } => ValidationCode::TransactionMissingDataModel,
            ValidationError::TransactionReadOutsideTransaction { .. } => ValidationCode::TransactionReadOutsideTransaction,
            ValidationError::TransactionReadOutOfOrder { .. } => ValidationCode::TransactionReadOutOfOrder,
            ValidationError::TransactionReadFieldNotSelected { .. } => ValidationCode::TransactionReadFieldNotSelected,
            ValidationError::StateTransitionSubjectMismatch { .. } => ValidationCode::StateTransitionSubjectMismatch,
            ValidationError::TransitionEffectIntentsMismatch { .. } => ValidationCode::TransitionEffectIntentsMismatch,
            ValidationError::EmptyObjectIdentity { .. } => ValidationCode::EmptyObjectIdentity,
            ValidationError::InvalidInputKind { .. } => ValidationCode::InvalidInputKind,
            ValidationError::ProgramNotTerminated { .. } => ValidationCode::ProgramNotTerminated,
            ValidationError::UnreachableProgramStep { .. } => ValidationCode::UnreachableProgramStep,
            ValidationError::TransactionArtifactNotAvailable { .. } => ValidationCode::TransactionArtifactNotAvailable,
            ValidationError::EffectResultNotBound { .. } => ValidationCode::EffectResultNotBound,
            ValidationError::EffectResultVariantOutOfScope { .. } => ValidationCode::EffectResultVariantOutOfScope,
            ValidationError::EffectHasNoResult { .. } => ValidationCode::EffectHasNoResult,
            ValidationError::ExternalIdempotencyRequiresIdentity { .. } => ValidationCode::ExternalIdempotencyRequiresIdentity,
            ValidationError::ExternalReplayStabilityRequiresIdentity { .. } => ValidationCode::ExternalReplayStabilityRequiresIdentity,
            ValidationError::ExternalResultReplayWithoutResult { .. } => ValidationCode::ExternalResultReplayWithoutResult,
            ValidationError::EmptyJoinAll { .. } => ValidationCode::EmptyJoinAll,
            ValidationError::RaceRequiresTwoHandles { .. } => ValidationCode::RaceRequiresTwoHandles,
            ValidationError::DuplicateSynchronizationHandle { .. } => ValidationCode::DuplicateSynchronizationHandle,
            ValidationError::AsyncHandleNotAvailable { .. } => ValidationCode::AsyncHandleNotAvailable,
            ValidationError::RaceResultContractMismatch { .. } => ValidationCode::RaceResultContractMismatch,
            ValidationError::EffectKindNotAsyncCapable { .. } => ValidationCode::EffectKindNotAsyncCapable,
            ValidationError::OutboxWithoutConsumer { .. } => ValidationCode::OutboxWithoutConsumer,
            ValidationError::OutboxMultipleConsumers { .. } => ValidationCode::OutboxMultipleConsumers,
            ValidationError::OutboxWriteMessageNotAdmitted { .. } => ValidationCode::OutboxWriteMessageNotAdmitted,
            ValidationError::OutboxMessageIdentitySchemaNotAdmitted { .. } => ValidationCode::OutboxMessageIdentitySchemaNotAdmitted,
            ValidationError::EmptyOutboxMessageIdentity { .. } => ValidationCode::EmptyOutboxMessageIdentity,
            ValidationError::OutboxMessageIdentityArityMismatch { .. } => ValidationCode::OutboxMessageIdentityArityMismatch,
            ValidationError::OutboxOutsideDataModel { .. } => ValidationCode::OutboxOutsideDataModel,
            ValidationError::OutboxWriteMissingDataModel { .. } => ValidationCode::OutboxWriteMissingDataModel,
            ValidationError::OutboxWriteOutsideTransaction { .. } => ValidationCode::OutboxWriteOutsideTransaction,
            ValidationError::OutboxWriteCannotBeIntent { .. } => ValidationCode::OutboxWriteCannotBeIntent,
            ValidationError::OutboxPartitionSchemaNotAdmitted { .. } => ValidationCode::OutboxPartitionSchemaNotAdmitted,
            ValidationError::OutboxPartitionMissingSchema { .. } => ValidationCode::OutboxPartitionMissingSchema,
            ValidationError::EmptyOutboxPartitionKey { .. } => ValidationCode::EmptyOutboxPartitionKey,
            ValidationError::OutboxPartitionKeyArityMismatch { .. } => ValidationCode::OutboxPartitionKeyArityMismatch,
            ValidationError::PartitionOrderingWithoutPartitioning { .. } => ValidationCode::PartitionOrderingWithoutPartitioning,
            ValidationError::OutboxRoutingWithoutPartitioning { .. } => ValidationCode::OutboxRoutingWithoutPartitioning,
        }
    }
}

impl ValidationError {
    /// The diagnostic this error reports: always an error, with the
    /// code of its kind.
    #[verifier::rlimit(100)]
    pub fn diagnostic(&self) -> (r: Diagnostic)
        ensures
            validation_diagnostic_is(r, *self),
    {
        let (subject, message, evidence) = match self {
            ValidationError::DuplicateId { id, first, second } => {
                let mut message = String::from_str("ID `");
                message.append(id.as_str());
                message.append("` is declared more than once in the global model namespace.");
                let first_subject = match &first.owner {
                    Option::Some(owner) => Option::Some(owner.clone()),
                    Option::None => Option::Some(id.clone()),
                };
                let second_subject = match &second.owner {
                    Option::Some(owner) => Option::Some(owner.clone()),
                    Option::None => Option::Some(id.clone()),
                };
                let mut evidence: Vec<Evidence> = Vec::new();
                evidence.push(Evidence { subject: first_subject, message: first.describe() });
                evidence.push(Evidence { subject: second_subject, message: second.describe() });
                proof {
                    assert(evidence_pairs(evidence@) =~= validation_evidence(*self));
                }
                (Option::Some(id.clone()), message, evidence)
            },
            ValidationError::InvalidReferenceOwner { subject, reference, expected_owner, actual_owner } => {
                let mut message = String::from_str("`");
                message.append(reference.as_str());
                message.append("` is referenced through `");
                message.append(expected_owner.as_str());
                message.append("`, but is not owned by it.");
                let mut text0 = String::from_str("Expected owner `");
                text0.append(expected_owner.as_str());
                text0.append("`, found ");
                match actual_owner {
                    Option::Some(owner) => {
                        text0.append("`");
                        text0.append(owner.as_str());
                        text0.append("`");
                    },
                    Option::None => {
                        text0.append("no owner");
                    },
                }
                text0.append(".");
                proof {
                    assert(text0@ =~= "Expected owner `"@ + expected_owner@ + "`, found "@
                        + owner_description(*actual_owner) + "."@);
                }
                let mut evidence: Vec<Evidence> = Vec::new();
                evidence.push(Evidence { subject: Option::Some(reference.clone()), message: text0 });
                proof {
                    assert(evidence_pairs(evidence@) =~= validation_evidence(*self));
                }
                (Option::Some(subject.clone()), message, evidence)
            },
            ValidationError::FragmentCycle { cycle } => {
                let mut rendered: Vec<String> = Vec::new();
                let mut i: usize = 0;
                while i < cycle.len()
                    invariant
                        i <= cycle@.len(),
                        rendered@.len() == i,
                        forall|k: int| 0 <= k < i ==> #[trigger] rendered@[k] == cycle@[k],
                    decreases cycle@.len() - i,
                {
                    rendered.push(cycle[i].clone());
                    i += 1;
                }
                proof {
                    assert(crate::text::texts(rendered@) =~= cycle_texts(cycle@));
                }
                let joined_cycle = crate::text::join(&rendered, " -> ");
                let mut message = String::from_str("Schema fragment derivation contains a cycle: ");
                message.append(joined_cycle.as_str());
                message.append(".");
                let subject = if cycle.len() > 0 {
                    Option::Some(cycle[0].clone())
                } else {
                    Option::None
                };
                let evidence: Vec<Evidence> = Vec::new();
                proof {
                    assert(evidence_pairs(evidence@) =~= validation_evidence(*self));
                }
                (subject, message, evidence)
            },
            ValidationError::InvalidTransitionOutboxDerivation { transaction, transition, missing, unexpected } => {
                let mut message = String::from_str("Transaction `");
                message.append(transaction.as_str());
                message.append("` applies transition `");
                message.append(transition.as_str());
                message.append(
                    "` with `effects` that do not exactly match the transition's declared outbox effects.",
                );
                let mut evidence: Vec<Evidence> = Vec::new();
                push_listed(
                    &mut evidence,
                    missing,
                    "The transition declares outbox effect `",
                    "`, but the step provides no message derivation for it.",
                );
                let mut tail = String::from_str(
                    "`, which is not an outbox effect declared by transition `",
                );
                tail.append(transition.as_str());
                tail.append("`.");
                push_listed(
                    &mut evidence,
                    unexpected,
                    "The step provides a derivation for `",
                    tail.as_str(),
                );
                proof {
                    assert(evidence_pairs(evidence@) =~= validation_evidence(*self));
                }
                (Option::Some(transaction.clone()), message, evidence)
            },
            ValidationError::TransitionEffectIntentsMismatch { transaction, transition, missing, unexpected } => {
                let mut message = String::from_str("Transaction `");
                message.append(transaction.as_str());
                message.append("` applies transition `");
                message.append(transition.as_str());
                message.append(
                    "` with `effect_intents` that do not exactly match the transition's declared side effects.",
                );
                let mut evidence: Vec<Evidence> = Vec::new();
                push_listed(
                    &mut evidence,
                    missing,
                    "The transition declares side effect `",
                    "`, but the step provides no intent binding and value derivation for it.",
                );
                let mut tail = String::from_str(
                    "`, which is not a side effect declared by transition `",
                );
                tail.append(transition.as_str());
                tail.append("`.");
                push_listed(
                    &mut evidence,
                    unexpected,
                    "The step provides an intent binding for `",
                    tail.as_str(),
                );
                proof {
                    assert(evidence_pairs(evidence@) =~= validation_evidence(*self));
                }
                (Option::Some(transaction.clone()), message, evidence)
            },
            ValidationError::UnknownReference { subject, reference, expected } => {
                let mut message = String::from_str("`");
                message.append(subject.as_str());
                message.append("` references unknown ");
                message.append(expected.text());
                message.append(" `");
                message.append(reference.as_str());
                message.append("`.");
                let mut evidence: Vec<Evidence> = Vec::new();
                let mut text0 = String::from_str("Expected this ID to resolve to a ");
                text0.append(expected.text());
                text0.append(".");
                evidence.push(Evidence { subject: Option::Some(reference.clone()), message: text0 });
                proof {
                    assert(evidence_pairs(evidence@) =~= validation_evidence(*self));
                }
                (Option::Some(subject.clone()), message, evidence)
            },
            ValidationError::InvalidReferenceKind { subject, reference, expected, actual } => {
                let mut message = String::from_str("`");
                message.append(subject.as_str());
                message.append("` references `");
                message.append(reference.as_str());
                message.append("` as a ");
                message.append(expected.text());
                message.append(", but it is a ");
                message.append(actual.text());
                message.append(".");
                let mut evidence: Vec<Evidence> = Vec::new();
                let mut text0 = String::from_str("Expected ");
                text0.append(expected.text());
                text0.append(", found ");
                text0.append(actual.text());
                text0.append(".");
                evidence.push(Evidence { subject: Option::Some(reference.clone()), message: text0 });
                proof {
                    assert(evidence_pairs(evidence@) =~= validation_evidence(*self));
                }
                (Option::Some(subject.clone()), message, evidence)
            },
            ValidationError::InvalidFieldPath { subject, schema, path } => {
                let mut message = String::from_str("Field path `");
                message.append(path.text.as_str());
                message.append("` does not resolve against schema `");
                message.append(schema.as_str());
                message.append("`.");
                let mut evidence: Vec<Evidence> = Vec::new();
                let mut text0 = String::from_str("Could not resolve field path `");
                text0.append(path.text.as_str());
                text0.append("` from this schema.");
                evidence.push(Evidence { subject: Option::Some(schema.clone()), message: text0 });
                proof {
                    assert(evidence_pairs(evidence@) =~= validation_evidence(*self));
                }
                (Option::Some(subject.clone()), message, evidence)
            },
            ValidationError::ValueSourceHasNoSchema { subject, source } => {
                let mut message = String::from_str("`");
                message.append(subject.as_str());
                message.append("` references fields of `");
                message.append(source.as_str());
                message.append("`, but that value source has no modeled payload schema.");
                let mut evidence: Vec<Evidence> = Vec::new();
                let mut text0 = String::from_str("A field path can only be resolved from a structurally typed value source.");
                evidence.push(Evidence { subject: Option::Some(source.clone()), message: text0 });
                proof {
                    assert(evidence_pairs(evidence@) =~= validation_evidence(*self));
                }
                (Option::Some(subject.clone()), message, evidence)
            },
            ValidationError::ValueSourceOutOfScope { subject, source, owner } => {
                let mut message = String::from_str("`");
                message.append(subject.as_str());
                message.append("` references `");
                message.append(source.as_str());
                message.append("`, which belongs to `");
                message.append(owner.as_str());
                message.append("` and is not observable by the invocations that evaluate this reference.");
                let mut evidence: Vec<Evidence> = Vec::new();
                let mut text0 = String::from_str("A value reference may only name inputs, effects, transaction outputs, and effect results reachable from the operation whose invocation evaluates it.");
                evidence.push(Evidence { subject: Option::Some(owner.clone()), message: text0 });
                proof {
                    assert(evidence_pairs(evidence@) =~= validation_evidence(*self));
                }
                (Option::Some(subject.clone()), message, evidence)
            },
            ValidationError::DataObjectSchemaNotCanonical { object, schema } => {
                let mut message = String::from_str("Data object `");
                message.append(object.as_str());
                message.append("` references non-canonical schema `");
                message.append(schema.as_str());
                message.append("`.");
                let mut evidence: Vec<Evidence> = Vec::new();
                let mut text0 = String::from_str("A data object's state must be described by a canonical schema.");
                evidence.push(Evidence { subject: Option::Some(schema.clone()), message: text0 });
                proof {
                    assert(evidence_pairs(evidence@) =~= validation_evidence(*self));
                }
                (Option::Some(object.clone()), message, evidence)
            },
            ValidationError::SubscriptionMessageNotOnTopic { input, topic, schema } => {
                let mut message = String::from_str("Subscription input `");
                message.append(input.as_str());
                message.append("` selects schema `");
                message.append(schema.as_str());
                message.append("`, which is not carried by topic `");
                message.append(topic.as_str());
                message.append("`.");
                let mut evidence: Vec<Evidence> = Vec::new();
                let mut text0 = String::from_str("Topic does not declare schema `");
                text0.append(schema.as_str());
                text0.append("` as a message.");
                evidence.push(Evidence { subject: Option::Some(topic.clone()), message: text0 });
                proof {
                    assert(evidence_pairs(evidence@) =~= validation_evidence(*self));
                }
                (Option::Some(input.clone()), message, evidence)
            },
            ValidationError::PublicationEffectMessageNotOnTopic { effect, topic, schema } => {
                let mut message = String::from_str("Publication effect `");
                message.append(effect.as_str());
                message.append("` publishes schema `");
                message.append(schema.as_str());
                message.append("` to topic `");
                message.append(topic.as_str());
                message.append("`, but the topic does not carry that schema.");
                let mut evidence: Vec<Evidence> = Vec::new();
                let mut text0 = String::from_str("Topic does not declare schema `");
                text0.append(schema.as_str());
                text0.append("` as a message.");
                evidence.push(Evidence { subject: Option::Some(topic.clone()), message: text0 });
                proof {
                    assert(evidence_pairs(evidence@) =~= validation_evidence(*self));
                }
                (Option::Some(effect.clone()), message, evidence)
            },
            ValidationError::MessageIdentitySchemaNotOnTopic { topic, schema } => {
                let mut message = String::from_str("Topic `");
                message.append(topic.as_str());
                message.append("` declares a message identity for schema `");
                message.append(schema.as_str());
                message.append("`, but does not carry that schema.");
                let mut evidence: Vec<Evidence> = Vec::new();
                let mut text0 = String::from_str("Message-identity mappings may only reference message schemas carried by the topic.");
                evidence.push(Evidence { subject: Option::Some(schema.clone()), message: text0 });
                proof {
                    assert(evidence_pairs(evidence@) =~= validation_evidence(*self));
                }
                (Option::Some(topic.clone()), message, evidence)
            },
            ValidationError::EmptyMessageIdentity { topic, schema } => {
                let mut message = String::from_str("Topic `");
                message.append(topic.as_str());
                message.append("` declares an empty message identity for schema `");
                message.append(schema.as_str());
                message.append("`.");
                let mut evidence: Vec<Evidence> = Vec::new();
                let mut text0 = String::from_str("A mapped schema must declare the complete, non-empty identity of one logical message.");
                evidence.push(Evidence { subject: Option::Some(schema.clone()), message: text0 });
                proof {
                    assert(evidence_pairs(evidence@) =~= validation_evidence(*self));
                }
                (Option::Some(topic.clone()), message, evidence)
            },
            ValidationError::MessageIdentityArityMismatch { topic, schema, expected, actual } => {
                let mut message = String::from_str("Topic `");
                message.append(topic.as_str());
                message.append("` maps the message identity of `");
                message.append(schema.as_str());
                message.append("` with ");
                push_decimal(&mut message, *actual);
                message.append(" field(s), but other mapped schemas use ");
                push_decimal(&mut message, *expected);
                message.append(".");
                let mut evidence: Vec<Evidence> = Vec::new();
                let mut text0 = String::from_str("Identity tuple positions correspond across schemas, so every mapped tuple must have the same arity.");
                evidence.push(Evidence { subject: Option::Some(schema.clone()), message: text0 });
                proof {
                    assert(evidence_pairs(evidence@) =~= validation_evidence(*self));
                }
                (Option::Some(topic.clone()), message, evidence)
            },
            ValidationError::EmptyRequestIdentity { input } => {
                let mut message = String::from_str("Request input `");
                message.append(input.as_str());
                message.append("` declares a keyed identity with no fields.");
                let mut evidence: Vec<Evidence> = Vec::new();
                let mut text0 = String::from_str("A keyed request identity must declare the complete, non-empty identity of one logical request.");
                evidence.push(Evidence { subject: Option::Some(input.clone()), message: text0 });
                proof {
                    assert(evidence_pairs(evidence@) =~= validation_evidence(*self));
                }
                (Option::Some(input.clone()), message, evidence)
            },
            ValidationError::TransactionRequirementKeyUnavailable { operation, location, transaction, family, requirement, key, reason } => {
                let mut message = String::from_str("The key of ");
                message.append(family.text());
                message.append(" requirement ");
                push_decimal(&mut message, *requirement);
                message.append(" of `");
                message.append(transaction.as_str());
                message.append("` (step `");
                message.append(location.label.as_str());
                message.append("` of `");
                message.append(operation.as_str());
                message.append("`), `");
                message.append(key.source.id().as_str());
                message.append(".");
                message.append(key.path.text.as_str());
                message.append("`, is not available when the transaction begins: ");
                let message_part = reason.text();
                message.append(message_part.as_str());
                message.append(".");
                let mut evidence: Vec<Evidence> = Vec::new();
                let mut text0 = String::from_str("A transaction requirement key identifies the conflict domain before the transaction executes, so it may derive only from an input, a prior transaction output, or a synchronous result already bound on every reaching path — never from a read the transaction itself performs.");
                evidence.push(Evidence { subject: Option::Some(transaction.clone()), message: text0 });
                proof {
                    assert(evidence_pairs(evidence@) =~= validation_evidence(*self));
                }
                (Option::Some(transaction.clone()), message, evidence)
            },
            ValidationError::TransactionOrderingPositionUnavailable { operation, location, transaction, requirement, position, reason } => {
                let mut message = String::from_str("The position of ordering requirement ");
                push_decimal(&mut message, *requirement);
                message.append(" of `");
                message.append(transaction.as_str());
                message.append("` (step `");
                message.append(location.label.as_str());
                message.append("` of `");
                message.append(operation.as_str());
                message.append("`), `");
                message.append(position.source.id().as_str());
                message.append(".");
                message.append(position.path.text.as_str());
                message.append("`, is not available when the transaction begins: ");
                let message_part = reason.text();
                message.append(message_part.as_str());
                message.append(".");
                let mut evidence: Vec<Evidence> = Vec::new();
                let mut text0 = String::from_str("An ordering position is the transaction's logical precedence within its domain, fixed before it executes: an input, a prior transaction output, or a synchronous result already bound on every reaching path.");
                evidence.push(Evidence { subject: Option::Some(transaction.clone()), message: text0 });
                proof {
                    assert(evidence_pairs(evidence@) =~= validation_evidence(*self));
                }
                (Option::Some(transaction.clone()), message, evidence)
            },
            ValidationError::TransactionOrderingPositionNotOrderedScalar { operation, transaction, requirement, position, found } => {
                let mut message = String::from_str("The position of ordering requirement ");
                push_decimal(&mut message, *requirement);
                message.append(" of `");
                message.append(transaction.as_str());
                message.append("` in `");
                message.append(operation.as_str());
                message.append("`, `");
                message.append(position.source.id().as_str());
                message.append(".");
                message.append(position.path.text.as_str());
                message.append("`, is ");
                message.append(found.as_str());
                message.append("; an ordering position must be a non-optional int, decimal, or timestamp.");
                let mut evidence: Vec<Evidence> = Vec::new();
                let mut text0 = String::from_str("`float` is excluded because NaN and implementation-specific comparison make it no total order; `uuid`, `bool`, structured schemas, and lists are not positions.");
                evidence.push(Evidence { subject: Option::Some(transaction.clone()), message: text0 });
                proof {
                    assert(evidence_pairs(evidence@) =~= validation_evidence(*self));
                }
                (Option::Some(transaction.clone()), message, evidence)
            },
            ValidationError::MissingTransactionRejectedArm { operation, location, transaction, step } => {
                let mut message = String::from_str("Transaction `");
                message.append(transaction.as_str());
                message.append("` at step `");
                message.append(location.label.as_str());
                message.append("` of `");
                message.append(operation.as_str());
                message.append("` can reject — its step ");
                push_successor(&mut message, *step);
                message.append(" is a commit guard — but the step declares no `rejected` block.");
                let mut evidence: Vec<Evidence> = Vec::new();
                let mut text0 = String::from_str("A transition, version validation, cursor advance, or fence may conclusively fail at commit; the operation must say what control does then. Declare `rejected` with the block control enters when the transaction rejects.");
                evidence.push(Evidence { subject: Option::Some(transaction.clone()), message: text0 });
                proof {
                    assert(evidence_pairs(evidence@) =~= validation_evidence(*self));
                }
                (Option::Some(transaction.clone()), message, evidence)
            },
            ValidationError::UnexpectedTransactionRejectedArm { operation, location, transaction } => {
                let mut message = String::from_str("Transaction `");
                message.append(transaction.as_str());
                message.append("` at step `");
                message.append(location.label.as_str());
                message.append("` of `");
                message.append(operation.as_str());
                message.append("` declares a `rejected` block, but no step of its body can reject.");
                let mut evidence: Vec<Evidence> = Vec::new();
                let mut text0 = String::from_str("Only a transition, version validation, cursor advance, or fence rejects; a transaction without one either commits or is interrupted, and interruption never enters `rejected`. Remove the block.");
                evidence.push(Evidence { subject: Option::Some(transaction.clone()), message: text0 });
                proof {
                    assert(evidence_pairs(evidence@) =~= validation_evidence(*self));
                }
                (Option::Some(transaction.clone()), message, evidence)
            },
            ValidationError::UnknownTransitionOutbox { machine, transition, effect, outbox } => {
                let mut message = String::from_str("Transition `");
                message.append(transition.as_str());
                message.append("` of `");
                message.append(machine.as_str());
                message.append("` admits `");
                message.append(effect.as_str());
                message.append("` to outbox `");
                message.append(outbox.as_str());
                message.append("`, which no data model declares.");
                let mut evidence: Vec<Evidence> = Vec::new();
                let mut text0 = String::from_str("A transition-scoped outbox write names an outbox of the data model that owns the machine's subject object.");
                evidence.push(Evidence { subject: Option::Some(outbox.clone()), message: text0 });
                proof {
                    assert(evidence_pairs(evidence@) =~= validation_evidence(*self));
                }
                (Option::Some(transition.clone()), message, evidence)
            },
            ValidationError::InvalidTransitionOutboxSchema { machine, transition, effect, outbox, schema } => {
                let mut message = String::from_str("Transition `");
                message.append(transition.as_str());
                message.append("` of `");
                message.append(machine.as_str());
                message.append("` admits schema `");
                message.append(schema.as_str());
                message.append("` to outbox `");
                message.append(outbox.as_str());
                message.append("` through `");
                message.append(effect.as_str());
                message.append("`, but that schema is not one the outbox admits.");
                let mut evidence: Vec<Evidence> = Vec::new();
                let mut text0 = String::from_str("The admitted schema must be declared and listed among the outbox's messages.");
                evidence.push(Evidence { subject: Option::Some(schema.clone()), message: text0 });
                proof {
                    assert(evidence_pairs(evidence@) =~= validation_evidence(*self));
                }
                (Option::Some(transition.clone()), message, evidence)
            },
            ValidationError::TransitionOutboxOutsideDataModel { machine, transition, effect, outbox, data_model } => {
                let mut message = String::from_str("Transition `");
                message.append(transition.as_str());
                message.append("` of `");
                message.append(machine.as_str());
                message.append("` admits `");
                message.append(effect.as_str());
                message.append("` to outbox `");
                message.append(outbox.as_str());
                message.append("`, which does not belong to `");
                message.append(data_model.as_str());
                message.append("`, the data model that owns the machine's subject.");
                let mut evidence: Vec<Evidence> = Vec::new();
                let mut text0 = String::from_str("A transition-scoped admission is atomic with the transaction that applies the transition, and that transaction's atomic boundary is the subject's data model; Conseqa never infers a distributed cross-data-model atomic commit.");
                evidence.push(Evidence { subject: Option::Some(outbox.clone()), message: text0 });
                proof {
                    assert(evidence_pairs(evidence@) =~= validation_evidence(*self));
                }
                (Option::Some(transition.clone()), message, evidence)
            },
            ValidationError::InvalidObjectVersionField { object, field, defect } => {
                let mut message = String::from_str("Data object `");
                message.append(object.as_str());
                message.append("` declares `");
                message.append(field.text.as_str());
                message.append("` as its version field, but ");
                let message_part = defect.text();
                message.append(message_part.as_str());
                message.append(".");
                let mut evidence: Vec<Evidence> = Vec::new();
                let mut text0 = String::from_str("A version field is a non-optional int outside the object's identity, managed by the version protocol alone.");
                evidence.push(Evidence { subject: Option::Some(object.clone()), message: text0 });
                proof {
                    assert(evidence_pairs(evidence@) =~= validation_evidence(*self));
                }
                (Option::Some(object.clone()), message, evidence)
            },
            ValidationError::DirectWriteToVersionField { transaction, step, object, field } => {
                let mut message = String::from_str("Step ");
                push_successor(&mut message, *step);
                message.append(" of transaction `");
                message.append(transaction.as_str());
                message.append("` writes `");
                message.append(field.text.as_str());
                message.append("` of `");
                message.append(object.as_str());
                message.append("`, the object's version field.");
                let mut evidence: Vec<Evidence> = Vec::new();
                let mut text0 = String::from_str("A version is never assigned through a derivation: `insert` creates the initial version and `bump_version` advances it.");
                evidence.push(Evidence { subject: Option::Some(object.clone()), message: text0 });
                proof {
                    assert(evidence_pairs(evidence@) =~= validation_evidence(*self));
                }
                (Option::Some(transaction.clone()), message, evidence)
            },
            ValidationError::MissingVersionBump { transaction, step, object } => {
                let mut message = String::from_str("Step ");
                push_successor(&mut message, *step);
                message.append(" of transaction `");
                message.append(transaction.as_str());
                message.append("` mutates versioned object `");
                message.append(object.as_str());
                message.append("` without a `bump_version` of the same selected instance.");
                let mut evidence: Vec<Evidence> = Vec::new();
                let mut text0 = String::from_str("Every write or transition of a live versioned instance must be accompanied by a `bump_version` whose selector is exactly the mutation's, so a validating reader detects the mutation at commit.");
                evidence.push(Evidence { subject: Option::Some(object.clone()), message: text0 });
                proof {
                    assert(evidence_pairs(evidence@) =~= validation_evidence(*self));
                }
                (Option::Some(transaction.clone()), message, evidence)
            },
            ValidationError::DuplicateVersionBump { transaction, step, object } => {
                let mut message = String::from_str("Step ");
                push_successor(&mut message, *step);
                message.append(" of transaction `");
                message.append(transaction.as_str());
                message.append("` bumps the version of an `");
                message.append(object.as_str());
                message.append("` instance an earlier step already bumps.");
                let mut evidence: Vec<Evidence> = Vec::new();
                let mut text0 = String::from_str("One transaction bumps one selected instance at most once: the version advances by exactly one per successful commit.");
                evidence.push(Evidence { subject: Option::Some(object.clone()), message: text0 });
                proof {
                    assert(evidence_pairs(evidence@) =~= validation_evidence(*self));
                }
                (Option::Some(transaction.clone()), message, evidence)
            },
            ValidationError::VersionValidationWithoutObservedVersion { transaction, step, object } => {
                let mut message = String::from_str("Step ");
                push_successor(&mut message, *step);
                message.append(" of transaction `");
                message.append(transaction.as_str());
                message.append("` validates the version of `");
                message.append(object.as_str());
                message.append("` against a value that is not a preceding read of that instance's version field.");
                let mut evidence: Vec<Evidence> = Vec::new();
                let mut text0 = String::from_str("`expected` must be `transaction_read:<bind>.<version field>` of an earlier read that selects the same instance and covers the version field; only an observed version makes the validation a commit guard.");
                evidence.push(Evidence { subject: Option::Some(object.clone()), message: text0 });
                proof {
                    assert(evidence_pairs(evidence@) =~= validation_evidence(*self));
                }
                (Option::Some(transaction.clone()), message, evidence)
            },
            ValidationError::VersionProtocolOnUnversionedObject { transaction, step, object } => {
                let mut message = String::from_str("Step ");
                push_successor(&mut message, *step);
                message.append(" of transaction `");
                message.append(transaction.as_str());
                message.append("` applies the version protocol to `");
                message.append(object.as_str());
                message.append("`, which declares no version.");
                let mut evidence: Vec<Evidence> = Vec::new();
                let mut text0 = String::from_str("Declare `version` on the data object before validating or bumping it.");
                evidence.push(Evidence { subject: Option::Some(object.clone()), message: text0 });
                proof {
                    assert(evidence_pairs(evidence@) =~= validation_evidence(*self));
                }
                (Option::Some(transaction.clone()), message, evidence)
            },
            ValidationError::ManagedFieldRoleConflict { object, field, first, second } => {
                let mut message = String::from_str("Field `");
                message.append(field.text.as_str());
                message.append("` of `");
                message.append(object.as_str());
                message.append("` is used as a ");
                let message_part = first.text();
                message.append(message_part.as_str());
                message.append(" and as a ");
                let message_part = second.text();
                message.append(message_part.as_str());
                message.append(".");
                let mut evidence: Vec<Evidence> = Vec::new();
                let mut text0 = String::from_str("A managed field has exactly one semantic role: a version, a cursor under one rule, or a fence.");
                evidence.push(Evidence { subject: Option::Some(object.clone()), message: text0 });
                proof {
                    assert(evidence_pairs(evidence@) =~= validation_evidence(*self));
                }
                (Option::Some(object.clone()), message, evidence)
            },
            ValidationError::DirectWriteToManagedField { transaction, step, object, field, role } => {
                let mut message = String::from_str("Step ");
                push_successor(&mut message, *step);
                message.append(" of transaction `");
                message.append(transaction.as_str());
                message.append("` writes `");
                message.append(field.text.as_str());
                message.append("` of `");
                message.append(object.as_str());
                message.append("`, a managed ");
                let message_part = role.text();
                message.append(message_part.as_str());
                message.append(" field.");
                let mut evidence: Vec<Evidence> = Vec::new();
                let mut text0 = String::from_str("A cursor advances only through `advance_cursor` and a fence only through `fence`; an ordinary write would break the order their proofs rest on. Insert initialization remains permitted.");
                evidence.push(Evidence { subject: Option::Some(object.clone()), message: text0 });
                proof {
                    assert(evidence_pairs(evidence@) =~= validation_evidence(*self));
                }
                (Option::Some(transaction.clone()), message, evidence)
            },
            ValidationError::InvalidManagedFieldType { object, field, role, defect } => {
                let mut message = String::from_str("Field `");
                message.append(field.text.as_str());
                message.append("` of `");
                message.append(object.as_str());
                message.append("` is used as a ");
                let message_part = role.text();
                message.append(message_part.as_str());
                message.append(", but ");
                let message_part = defect.text();
                message.append(message_part.as_str());
                message.append(".");
                let mut evidence: Vec<Evidence> = Vec::new();
                let mut text0 = String::from_str("A successor cursor is a non-optional int; a monotonic cursor or a fence is a non-optional int, decimal, or timestamp; and the value driving it has the field's type.");
                evidence.push(Evidence { subject: Option::Some(object.clone()), message: text0 });
                proof {
                    assert(evidence_pairs(evidence@) =~= validation_evidence(*self));
                }
                (Option::Some(object.clone()), message, evidence)
            },
            ValidationError::UnknownResultErrorClass { operation, location, request, error } => {
                let mut message = String::from_str("Program step `");
                message.append(location.label.as_str());
                message.append("` of `");
                message.append(operation.as_str());
                message.append("` returns error class `");
                message.append(error.as_str());
                message.append("` for `");
                message.append(request.as_str());
                message.append("`, which declares no such class.");
                let mut evidence: Vec<Evidence> = Vec::new();
                let mut text0 = String::from_str("A returned error names one of the classes in the request's result contract; its derivation must match that class's schema.");
                evidence.push(Evidence { subject: Option::Some(request.clone()), message: text0 });
                proof {
                    assert(evidence_pairs(evidence@) =~= validation_evidence(*self));
                }
                (Option::Some(operation.clone()), message, evidence)
            },
            ValidationError::MissingResultErrorArm { operation, location, result, error } => {
                let mut message = String::from_str("Program step `");
                message.append(location.label.as_str());
                message.append("` of `");
                message.append(operation.as_str());
                message.append("` matches `");
                message.append(result.as_str());
                message.append("` without an arm for its error class `");
                message.append(error.as_str());
                message.append("`.");
                let mut evidence: Vec<Evidence> = Vec::new();
                let mut text0 = String::from_str("Error arms are explicit and exhaustive over the result contract's error classes.");
                evidence.push(Evidence { subject: Option::Some(result.clone()), message: text0 });
                proof {
                    assert(evidence_pairs(evidence@) =~= validation_evidence(*self));
                }
                (Option::Some(operation.clone()), message, evidence)
            },
            ValidationError::UnexpectedResultErrorArm { operation, location, result, error } => {
                let mut message = String::from_str("Program step `");
                message.append(location.label.as_str());
                message.append("` of `");
                message.append(operation.as_str());
                message.append("` matches `");
                message.append(result.as_str());
                message.append("` with an arm for `");
                message.append(error.as_str());
                message.append("`, which is not an error class of its contract.");
                let mut evidence: Vec<Evidence> = Vec::new();
                let mut text0 = String::from_str("Only the classes the result contract declares have arms.");
                evidence.push(Evidence { subject: Option::Some(result.clone()), message: text0 });
                proof {
                    assert(evidence_pairs(evidence@) =~= validation_evidence(*self));
                }
                (Option::Some(operation.clone()), message, evidence)
            },
            ValidationError::EmptyRoutingKey { router } => {
                let mut message = String::from_str("`");
                message.append(router.as_str());
                message.append("` declares a routing block with an empty key, which names no routing domain.");
                let mut evidence: Vec<Evidence> = Vec::new();
                let mut text0 = String::from_str("A routing key must name at least one field; omit the routing block entirely to declare no member affinity.");
                evidence.push(Evidence { subject: Option::Some(router.clone()), message: text0 });
                proof {
                    assert(evidence_pairs(evidence@) =~= validation_evidence(*self));
                }
                (Option::Some(router.clone()), message, evidence)
            },
            ValidationError::RoutingWithoutGrouping { operation, input, topic } => {
                let mut message = String::from_str("`");
                message.append(input.as_str());
                message.append("` of `");
                message.append(operation.as_str());
                message.append("` dispatches by `grouping_key`, but no keyed grouping is in effect for `");
                message.append(topic.as_str());
                message.append("`.");
                let mut evidence: Vec<Evidence> = Vec::new();
                let mut text0 = String::from_str("Declare a keyed `grouping` — on this topic's runtime, or on this subscription if the topic declares no transport semantics — or omit the routing block.");
                evidence.push(Evidence { subject: Option::Some(topic.clone()), message: text0 });
                proof {
                    assert(evidence_pairs(evidence@) =~= validation_evidence(*self));
                }
                (Option::Some(input.clone()), message, evidence)
            },
            ValidationError::GroupingKeySchemaNotOnTopic { subject, topic, schema } => {
                let mut message = String::from_str("The grouping key maps `");
                message.append(schema.as_str());
                message.append("`, which `");
                message.append(topic.as_str());
                message.append("` does not carry.");
                let mut evidence: Vec<Evidence> = Vec::new();
                let mut text0 = String::from_str("A grouping key may only map schemas the topic carries.");
                evidence.push(Evidence { subject: Option::Some(topic.clone()), message: text0 });
                proof {
                    assert(evidence_pairs(evidence@) =~= validation_evidence(*self));
                }
                (Option::Some(subject.clone()), message, evidence)
            },
            ValidationError::GroupingKeyMissingSchema { subject, topic, schema } => {
                let mut message = String::from_str("The grouping key leaves `");
                message.append(schema.as_str());
                message.append("`, carried by `");
                message.append(topic.as_str());
                message.append("`, unmapped.");
                let mut evidence: Vec<Evidence> = Vec::new();
                let mut text0 = String::from_str("A grouping key must place every carried message in some group; an unmapped schema would belong to none.");
                evidence.push(Evidence { subject: Option::Some(schema.clone()), message: text0 });
                proof {
                    assert(evidence_pairs(evidence@) =~= validation_evidence(*self));
                }
                (Option::Some(subject.clone()), message, evidence)
            },
            ValidationError::EmptyGroupingKey { subject, schema } => {
                let mut message = String::from_str("The grouping key maps `");
                message.append(schema.as_str());
                message.append("` to an empty tuple.");
                let mut evidence: Vec<Evidence> = Vec::new();
                let mut text0 = String::from_str("A grouping key tuple must name at least one field.");
                evidence.push(Evidence { subject: Option::Some(schema.clone()), message: text0 });
                proof {
                    assert(evidence_pairs(evidence@) =~= validation_evidence(*self));
                }
                (Option::Some(subject.clone()), message, evidence)
            },
            ValidationError::GroupingKeyArityMismatch { subject, schema, expected, actual } => {
                let mut message = String::from_str("The grouping key maps `");
                message.append(schema.as_str());
                message.append("` to ");
                push_decimal(&mut message, *actual);
                message.append(" field(s), but other schemas map ");
                push_decimal(&mut message, *expected);
                message.append(".");
                let mut evidence: Vec<Evidence> = Vec::new();
                let mut text0 = String::from_str("Tuple positions correspond across schemas, so every mapped tuple shares one arity.");
                evidence.push(Evidence { subject: Option::Some(schema.clone()), message: text0 });
                proof {
                    assert(evidence_pairs(evidence@) =~= validation_evidence(*self));
                }
                (Option::Some(subject.clone()), message, evidence)
            },
            ValidationError::WithinGroupWithoutGrouping { subject } => {
                let mut message = String::from_str("`ordering: within_group` is declared where no keyed grouping is declared at the same scope.");
                let mut evidence: Vec<Evidence> = Vec::new();
                let mut text0 = String::from_str("Declare the grouping the guarantee is about, or use `ordering: global` or `none`.");
                evidence.push(Evidence { subject: Option::Some(subject.clone()), message: text0 });
                proof {
                    assert(evidence_pairs(evidence@) =~= validation_evidence(*self));
                }
                (Option::Some(subject.clone()), message, evidence)
            },
            ValidationError::TransportSemanticsAtBothScopes { topic, operation, input } => {
                let mut message = String::from_str("`");
                message.append(topic.as_str());
                message.append("` declares transport semantics for all its subscriptions, and `");
                message.append(input.as_str());
                message.append("` of `");
                message.append(operation.as_str());
                message.append("` declares its own.");
                let mut evidence: Vec<Evidence> = Vec::new();
                let mut text0 = String::from_str("Grouping and ordering are declared either once for the topic or independently per subscription, never at both. There is no override.");
                evidence.push(Evidence { subject: Option::Some(topic.clone()), message: text0 });
                proof {
                    assert(evidence_pairs(evidence@) =~= validation_evidence(*self));
                }
                (Option::Some(input.clone()), message, evidence)
            },
            ValidationError::DuplicateRouterForBoundary { first, second, operation, input } => {
                let mut message = String::from_str("`");
                message.append(first.as_str());
                message.append("` and `");
                message.append(second.as_str());
                message.append("` both route the request boundary `");
                message.append(operation.as_str());
                message.append("`/`");
                message.append(input.as_str());
                message.append("`.");
                let mut evidence: Vec<Evidence> = Vec::new();
                let mut text0 = String::from_str("One request boundary has at most one router, so its execution-pool assignment is unambiguous.");
                evidence.push(Evidence { subject: Option::Some(first.clone()), message: text0 });
                proof {
                    assert(evidence_pairs(evidence@) =~= validation_evidence(*self));
                }
                (Option::Some(second.clone()), message, evidence)
            },
            ValidationError::EmptyPartitionKey { layout } => {
                let mut message = String::from_str("`");
                message.append(layout.as_str());
                message.append("` declares an empty partition key, which identifies no physical partition.");
                let mut evidence: Vec<Evidence> = Vec::new();
                let mut text0 = String::from_str("A partition key must name at least one field of the object's schema.");
                evidence.push(Evidence { subject: Option::Some(layout.clone()), message: text0 });
                proof {
                    assert(evidence_pairs(evidence@) =~= validation_evidence(*self));
                }
                (Option::Some(layout.clone()), message, evidence)
            },
            ValidationError::DuplicateStorageLayoutForObject { first, second, data_model, object } => {
                let mut message = String::from_str("`");
                message.append(first.as_str());
                message.append("` and `");
                message.append(second.as_str());
                message.append("` both declare a storage layout for `");
                message.append(data_model.as_str());
                message.append("`/`");
                message.append(object.as_str());
                message.append("`.");
                let mut evidence: Vec<Evidence> = Vec::new();
                let mut text0 = String::from_str("V1 admits at most one primary storage layout per data object.");
                evidence.push(Evidence { subject: Option::Some(first.clone()), message: text0 });
                proof {
                    assert(evidence_pairs(evidence@) =~= validation_evidence(*self));
                }
                (Option::Some(second.clone()), message, evidence)
            },
            ValidationError::TransactionObjectOutsideDataModel { transaction, data_model, object } => {
                let mut message = String::from_str("Transaction `");
                message.append(transaction.as_str());
                message.append("` accesses object `");
                message.append(object.as_str());
                message.append("`, which does not belong to its declared data model `");
                message.append(data_model.as_str());
                message.append("`.");
                let mut evidence: Vec<Evidence> = Vec::new();
                let mut text0 = String::from_str("This object is outside data model `");
                text0.append(data_model.as_str());
                text0.append("`.");
                evidence.push(Evidence { subject: Option::Some(object.clone()), message: text0 });
                proof {
                    assert(evidence_pairs(evidence@) =~= validation_evidence(*self));
                }
                (Option::Some(transaction.clone()), message, evidence)
            },
            ValidationError::TransactionMissingDataModel { transaction, object } => {
                let mut message = String::from_str("Transaction `");
                message.append(transaction.as_str());
                message.append("` accesses data object `");
                message.append(object.as_str());
                message.append("` but declares no data-model boundary.");
                let mut evidence: Vec<Evidence> = Vec::new();
                let mut text0 = String::from_str("Access to a persistent data object requires the transaction to declare its data model.");
                evidence.push(Evidence { subject: Option::Some(object.clone()), message: text0 });
                proof {
                    assert(evidence_pairs(evidence@) =~= validation_evidence(*self));
                }
                (Option::Some(transaction.clone()), message, evidence)
            },
            ValidationError::TransactionReadOutsideTransaction { subject, read } => {
                let mut message = String::from_str("`");
                message.append(subject.as_str());
                message.append("` references transaction-read result `");
                message.append(read.as_str());
                message.append("` outside the transaction execution that produces it.");
                let mut evidence: Vec<Evidence> = Vec::new();
                let mut text0 = String::from_str("A transaction-read result is local to its transaction execution and never becomes a durable cross-transaction artifact.");
                evidence.push(Evidence { subject: Option::Some(read.clone()), message: text0 });
                proof {
                    assert(evidence_pairs(evidence@) =~= validation_evidence(*self));
                }
                (Option::Some(subject.clone()), message, evidence)
            },
            ValidationError::TransactionReadOutOfOrder { transaction, read } => {
                let mut message = String::from_str("Transaction `");
                message.append(transaction.as_str());
                message.append("` references transaction-read result `");
                message.append(read.as_str());
                message.append("` before the step that reads it.");
                let mut evidence: Vec<Evidence> = Vec::new();
                let mut text0 = String::from_str("A transaction-read result may only be referenced by steps that follow the read in transaction program order.");
                evidence.push(Evidence { subject: Option::Some(read.clone()), message: text0 });
                proof {
                    assert(evidence_pairs(evidence@) =~= validation_evidence(*self));
                }
                (Option::Some(transaction.clone()), message, evidence)
            },
            ValidationError::TransactionReadFieldNotSelected { transaction, read, path } => {
                let mut message = String::from_str("Transaction-read result `");
                message.append(read.as_str());
                message.append("` is referenced through field path `");
                message.append(path.text.as_str());
                message.append("`, which the read does not select.");
                let mut evidence: Vec<Evidence> = Vec::new();
                let mut text0 = String::from_str("This read does not include `");
                text0.append(path.text.as_str());
                text0.append("` in its field selection.");
                evidence.push(Evidence { subject: Option::Some(read.clone()), message: text0 });
                proof {
                    assert(evidence_pairs(evidence@) =~= validation_evidence(*self));
                }
                (Option::Some(transaction.clone()), message, evidence)
            },
            ValidationError::StateTransitionSubjectMismatch { transaction, machine, expected_object, actual_object } => {
                let mut message = String::from_str("State-machine transition for `");
                message.append(machine.as_str());
                message.append("` selects data object `");
                message.append(actual_object.as_str());
                message.append("`, but the state machine governs `");
                message.append(expected_object.as_str());
                message.append("`.");
                let mut evidence: Vec<Evidence> = Vec::new();
                let mut text0 = String::from_str("This state machine governs data object `");
                text0.append(expected_object.as_str());
                text0.append("`.");
                evidence.push(Evidence { subject: Option::Some(machine.clone()), message: text0 });
                let mut text1 = String::from_str("This data object is selected as the subject of the transaction's state transition.");
                evidence.push(Evidence { subject: Option::Some(actual_object.clone()), message: text1 });
                proof {
                    assert(evidence_pairs(evidence@) =~= validation_evidence(*self));
                }
                (Option::Some(transaction.clone()), message, evidence)
            },
            ValidationError::EmptyObjectIdentity { object } => {
                let mut message = String::from_str("Data object `");
                message.append(object.as_str());
                message.append("` declares an empty identity.");
                let mut evidence: Vec<Evidence> = Vec::new();
                let mut text0 = String::from_str("Every data object must declare the complete, non-empty logical identity of one instance.");
                evidence.push(Evidence { subject: Option::Some(object.clone()), message: text0 });
                proof {
                    assert(evidence_pairs(evidence@) =~= validation_evidence(*self));
                }
                (Option::Some(object.clone()), message, evidence)
            },
            ValidationError::InvalidInputKind { subject, input, expected, actual } => {
                let mut message = String::from_str("`");
                message.append(input.as_str());
                message.append("` is referenced as a ");
                message.append(expected.text());
                message.append(", but it is a ");
                message.append(actual.text());
                message.append(".");
                let mut evidence: Vec<Evidence> = Vec::new();
                let mut text0 = String::from_str("Expected ");
                text0.append(expected.text());
                text0.append(", found ");
                text0.append(actual.text());
                text0.append(".");
                evidence.push(Evidence { subject: Option::Some(input.clone()), message: text0 });
                proof {
                    assert(evidence_pairs(evidence@) =~= validation_evidence(*self));
                }
                (Option::Some(subject.clone()), message, evidence)
            },
            ValidationError::ProgramNotTerminated { operation } => {
                let mut message = String::from_str("The program of `");
                message.append(operation.as_str());
                message.append("` can fall off the end of its last step without reaching a terminal.");
                let mut evidence: Vec<Evidence> = Vec::new();
                let mut text0 = String::from_str("Every reachable path through an operation program must end at an explicit `return` or `complete` step.");
                evidence.push(Evidence { subject: Option::Some(operation.clone()), message: text0 });
                proof {
                    assert(evidence_pairs(evidence@) =~= validation_evidence(*self));
                }
                (Option::Some(operation.clone()), message, evidence)
            },
            ValidationError::UnreachableProgramStep { operation, location } => {
                let mut message = String::from_str("Program step `");
                message.append(location.label.as_str());
                message.append("` of `");
                message.append(operation.as_str());
                message.append("` is unreachable: it follows a terminal in its block.");
                let mut evidence: Vec<Evidence> = Vec::new();
                let mut text0 = String::from_str("A `return` or `complete` step, or a decision whose every arm terminates, ends its block; no step may follow it there.");
                evidence.push(Evidence { subject: Option::Some(operation.clone()), message: text0 });
                proof {
                    assert(evidence_pairs(evidence@) =~= validation_evidence(*self));
                }
                (Option::Some(operation.clone()), message, evidence)
            },
            ValidationError::TransactionArtifactNotAvailable { operation, location, artifact, consumer } => {
                let mut message = String::from_str("Program step `");
                message.append(location.label.as_str());
                message.append("` of `");
                message.append(operation.as_str());
                message.append("` consumes transaction artifact `");
                message.append(artifact.as_str());
                message.append("` in ");
                let message_part = consumer.text();
                message.append(message_part.as_str());
                message.append(", but no transaction on every path reaching that step establishes or recovers it.");
                let mut evidence: Vec<Evidence> = Vec::new();
                let mut text0 = String::from_str("A transaction output or effect intent may be consumed only where control flow definitely establishes it: after a transaction that establishes it on every incoming path.");
                evidence.push(Evidence { subject: Option::Some(artifact.clone()), message: text0 });
                proof {
                    assert(evidence_pairs(evidence@) =~= validation_evidence(*self));
                }
                (Option::Some(operation.clone()), message, evidence)
            },
            ValidationError::EffectResultNotBound { operation, location, result, consumer } => {
                let mut message = String::from_str("Program step `");
                message.append(location.label.as_str());
                message.append("` of `");
                message.append(operation.as_str());
                message.append("` uses effect result `");
                message.append(result.as_str());
                message.append("` in ");
                let message_part = consumer.text();
                message.append(message_part.as_str());
                message.append(", but no effect-executing step on every path reaching it binds that result.");
                let mut evidence: Vec<Evidence> = Vec::new();
                let mut text0 = String::from_str("A result binding is available only after the step that binds it, on every path reaching the use.");
                evidence.push(Evidence { subject: Option::Some(result.clone()), message: text0 });
                proof {
                    assert(evidence_pairs(evidence@) =~= validation_evidence(*self));
                }
                (Option::Some(operation.clone()), message, evidence)
            },
            ValidationError::EffectResultVariantOutOfScope { operation, location, result, variant, consumer } => {
                let mut message = String::from_str("Program step `");
                message.append(location.label.as_str());
                message.append("` of `");
                message.append(operation.as_str());
                message.append("` references the `");
                message.append(variant.text());
                message.append("` payload of `");
                message.append(result.as_str());
                message.append("` in ");
                let message_part = consumer.text();
                message.append(message_part.as_str());
                message.append(", outside the `");
                message.append(variant.text());
                message.append("` arm of a match on that result.");
                let mut evidence: Vec<Evidence> = Vec::new();
                let mut text0 = String::from_str("A variant payload is arm-local: `effect_result_ok` is available only inside the `ok` arm of a `match_result` on the binding, and `effect_result_err` only inside the `err` arm.");
                evidence.push(Evidence { subject: Option::Some(result.clone()), message: text0 });
                proof {
                    assert(evidence_pairs(evidence@) =~= validation_evidence(*self));
                }
                (Option::Some(operation.clone()), message, evidence)
            },
            ValidationError::EffectHasNoResult { operation, location, effect, result } => {
                let mut message = String::from_str("Program step `");
                message.append(location.label.as_str());
                message.append("` of `");
                message.append(operation.as_str());
                message.append("` binds result `");
                message.append(result.as_str());
                message.append("` of effect `");
                message.append(effect.as_str());
                message.append("`, whose contract has no synchronous result.");
                let mut evidence: Vec<Evidence> = Vec::new();
                let mut text0 = String::from_str("A publication produces no synchronous result, and an external effect produces one only when it declares a `result` contract; a request inherits its target input's contract.");
                evidence.push(Evidence { subject: Option::Some(effect.clone()), message: text0 });
                proof {
                    assert(evidence_pairs(evidence@) =~= validation_evidence(*self));
                }
                (Option::Some(operation.clone()), message, evidence)
            },
            ValidationError::ExternalIdempotencyRequiresIdentity { effect } => {
                let mut message = String::from_str("External effect `");
                message.append(effect.as_str());
                message.append("` declares `idempotency: identical_per_identity` with `identity: unspecified`.");
                let mut evidence: Vec<Evidence> = Vec::new();
                let mut text0 = String::from_str("`identical_per_identity` is quantified over applications of one logical external interaction; a keyed `identity` is what defines which applications those are. Declare `identity: keyed` with the interaction key, or use `side_effect_free` for a keyless universal guarantee.");
                evidence.push(Evidence { subject: Option::Some(effect.clone()), message: text0 });
                proof {
                    assert(evidence_pairs(evidence@) =~= validation_evidence(*self));
                }
                (Option::Some(effect.clone()), message, evidence)
            },
            ValidationError::ExternalReplayStabilityRequiresIdentity { effect } => {
                let mut message = String::from_str("External effect `");
                message.append(effect.as_str());
                message.append("` declares `result_replay: replay_stable` with `identity: unspecified`.");
                let mut evidence: Vec<Evidence> = Vec::new();
                let mut text0 = String::from_str("A replay-fixed terminal result is a fact about one logical external interaction; a keyed `identity` is what defines which applications share it. Declare `identity: keyed` with the interaction key, or leave `result_replay` at `unspecified` or `unstable`.");
                evidence.push(Evidence { subject: Option::Some(effect.clone()), message: text0 });
                proof {
                    assert(evidence_pairs(evidence@) =~= validation_evidence(*self));
                }
                (Option::Some(effect.clone()), message, evidence)
            },
            ValidationError::ExternalResultReplayWithoutResult { effect } => {
                let mut message = String::from_str("External effect `");
                message.append(effect.as_str());
                message.append("` declares a `result_replay` behaviour but no `result` contract.");
                let mut evidence: Vec<Evidence> = Vec::new();
                let mut text0 = String::from_str("`unstable` and `replay_stable` describe the replay behaviour of the boundary's synchronous result; an effect declaring `result: null` has none to describe. Declare the result contract, or leave `result_replay: unspecified`.");
                evidence.push(Evidence { subject: Option::Some(effect.clone()), message: text0 });
                proof {
                    assert(evidence_pairs(evidence@) =~= validation_evidence(*self));
                }
                (Option::Some(effect.clone()), message, evidence)
            },
            ValidationError::EmptyJoinAll { operation, location } => {
                let mut message = String::from_str("Program step `");
                message.append(location.label.as_str());
                message.append("` of `");
                message.append(operation.as_str());
                message.append("` is a `join_all` with no handles.");
                let mut evidence: Vec<Evidence> = Vec::new();
                let mut text0 = String::from_str("A `join_all` must reference at least one definitely available async handle; an empty barrier waits on nothing.");
                evidence.push(Evidence { subject: Option::Some(operation.clone()), message: text0 });
                proof {
                    assert(evidence_pairs(evidence@) =~= validation_evidence(*self));
                }
                (Option::Some(operation.clone()), message, evidence)
            },
            ValidationError::RaceRequiresTwoHandles { operation, location, count } => {
                let mut message = String::from_str("Program step `");
                message.append(location.label.as_str());
                message.append("` of `");
                message.append(operation.as_str());
                message.append("` is a `race` over ");
                push_decimal(&mut message, *count);
                message.append(" handle(s); a race requires at least two candidates.");
                let mut evidence: Vec<Evidence> = Vec::new();
                let mut text0 = String::from_str("A first-completion barrier over fewer than two candidates decides nothing; to await one handle, use a single-handle `join_all`.");
                evidence.push(Evidence { subject: Option::Some(operation.clone()), message: text0 });
                proof {
                    assert(evidence_pairs(evidence@) =~= validation_evidence(*self));
                }
                (Option::Some(operation.clone()), message, evidence)
            },
            ValidationError::DuplicateSynchronizationHandle { operation, location, handle, consumer } => {
                let mut message = String::from_str("Program step `");
                message.append(location.label.as_str());
                message.append("` of `");
                message.append(operation.as_str());
                message.append("` references async handle `");
                message.append(handle.as_str());
                message.append("` more than once in ");
                let message_part = consumer.text();
                message.append(message_part.as_str());
                message.append(".");
                let mut evidence: Vec<Evidence> = Vec::new();
                let mut text0 = String::from_str("Each handle identifies one asynchronous execution occurrence and may appear at most once per synchronization step.");
                evidence.push(Evidence { subject: Option::Some(handle.clone()), message: text0 });
                proof {
                    assert(evidence_pairs(evidence@) =~= validation_evidence(*self));
                }
                (Option::Some(operation.clone()), message, evidence)
            },
            ValidationError::AsyncHandleNotAvailable { operation, location, handle, consumer } => {
                let mut message = String::from_str("Program step `");
                message.append(location.label.as_str());
                message.append("` of `");
                message.append(operation.as_str());
                message.append("` waits on async handle `");
                message.append(handle.as_str());
                message.append("` in ");
                let message_part = consumer.text();
                message.append(message_part.as_str());
                message.append(", but no async launch on every path reaching that step binds it.");
                let mut evidence: Vec<Evidence> = Vec::new();
                let mut text0 = String::from_str("An async handle follows the operation-local definite-availability discipline: it may be synchronized only after the launch that binds it, on every path reaching the synchronization.");
                evidence.push(Evidence { subject: Option::Some(handle.clone()), message: text0 });
                proof {
                    assert(evidence_pairs(evidence@) =~= validation_evidence(*self));
                }
                (Option::Some(operation.clone()), message, evidence)
            },
            ValidationError::RaceResultContractMismatch { operation, location, bind, first, second } => {
                let mut message = String::from_str("Program step `");
                message.append(location.label.as_str());
                message.append("` of `");
                message.append(operation.as_str());
                message.append("` binds race result `");
                message.append(bind.as_str());
                message.append("`, but candidate effects `");
                message.append(first.as_str());
                message.append("` and `");
                message.append(second.as_str());
                message.append("` do not expose the same logical result contract.");
                let mut evidence: Vec<Evidence> = Vec::new();
                let mut text0 = String::from_str("A result-binding race observes whichever candidate completes first, so every candidate must be result-bearing with one logical result contract; drop `bind` to race heterogeneous effects.");
                evidence.push(Evidence { subject: Option::Some(bind.clone()), message: text0 });
                proof {
                    assert(evidence_pairs(evidence@) =~= validation_evidence(*self));
                }
                (Option::Some(operation.clone()), message, evidence)
            },
            ValidationError::EffectKindNotAsyncCapable { operation, location, effect } => {
                let mut message = String::from_str("Program step `");
                message.append(location.label.as_str());
                message.append("` of `");
                message.append(operation.as_str());
                message.append("` launches effect `");
                message.append(effect.as_str());
                message.append("` asynchronously, but its effect kind does not permit direct asynchronous execution.");
                let mut evidence: Vec<Evidence> = Vec::new();
                let mut text0 = String::from_str("Each effect kind explicitly declares whether `execute_effect_async` may launch it; none becomes async-capable merely by being an effect.");
                evidence.push(Evidence { subject: Option::Some(effect.clone()), message: text0 });
                proof {
                    assert(evidence_pairs(evidence@) =~= validation_evidence(*self));
                }
                (Option::Some(operation.clone()), message, evidence)
            },
            ValidationError::OutboxWithoutConsumer { outbox } => {
                let mut message = String::from_str("Outbox `");
                message.append(outbox.as_str());
                message.append("` has no consuming outbox input; exactly one `OutboxInput` must reference it.");
                let mut evidence: Vec<Evidence> = Vec::new();
                let mut text0 = String::from_str("Consumption is intrinsic to the outbox abstraction: a committed message stays durably pending until successfully consumed, so an outbox without its one consumer would accumulate pending messages forever.");
                evidence.push(Evidence { subject: Option::Some(outbox.clone()), message: text0 });
                proof {
                    assert(evidence_pairs(evidence@) =~= validation_evidence(*self));
                }
                (Option::Some(outbox.clone()), message, evidence)
            },
            ValidationError::OutboxMultipleConsumers { outbox, first_operation, first_input, operation, input } => {
                let mut message = String::from_str("Outbox input `");
                message.append(input.as_str());
                message.append("` of `");
                message.append(operation.as_str());
                message.append("` references outbox `");
                message.append(outbox.as_str());
                message.append("`, which `");
                message.append(first_input.as_str());
                message.append("` of `");
                message.append(first_operation.as_str());
                message.append("` already consumes; exactly one `OutboxInput` may reference an outbox.");
                let mut evidence: Vec<Evidence> = Vec::new();
                let mut text0 = String::from_str("The consuming input's operation is the outbox's exclusive logical consumer of every admitted schema. Downstream fan-out belongs to topics, not outboxes: relay the messages onto a topic and subscribe the other consumers there.");
                evidence.push(Evidence { subject: Option::Some(outbox.clone()), message: text0 });
                proof {
                    assert(evidence_pairs(evidence@) =~= validation_evidence(*self));
                }
                (Option::Some(input.clone()), message, evidence)
            },
            ValidationError::OutboxWriteMessageNotAdmitted { effect, outbox, schema } => {
                let mut message = String::from_str("Outbox write `");
                message.append(effect.as_str());
                message.append("` admits schema `");
                message.append(schema.as_str());
                message.append("` to outbox `");
                message.append(outbox.as_str());
                message.append("`, but the outbox does not admit that schema.");
                let mut evidence: Vec<Evidence> = Vec::new();
                let mut text0 = String::from_str("The outbox does not declare schema `");
                text0.append(schema.as_str());
                text0.append("` as a message.");
                evidence.push(Evidence { subject: Option::Some(outbox.clone()), message: text0 });
                proof {
                    assert(evidence_pairs(evidence@) =~= validation_evidence(*self));
                }
                (Option::Some(effect.clone()), message, evidence)
            },
            ValidationError::OutboxMessageIdentitySchemaNotAdmitted { outbox, schema } => {
                let mut message = String::from_str("Outbox `");
                message.append(outbox.as_str());
                message.append("` declares a message identity for schema `");
                message.append(schema.as_str());
                message.append("`, but does not admit that schema.");
                let mut evidence: Vec<Evidence> = Vec::new();
                let mut text0 = String::from_str("Message-identity mappings may only reference message schemas the outbox admits.");
                evidence.push(Evidence { subject: Option::Some(schema.clone()), message: text0 });
                proof {
                    assert(evidence_pairs(evidence@) =~= validation_evidence(*self));
                }
                (Option::Some(outbox.clone()), message, evidence)
            },
            ValidationError::EmptyOutboxMessageIdentity { outbox, schema } => {
                let mut message = String::from_str("Outbox `");
                message.append(outbox.as_str());
                message.append("` declares an empty message identity for schema `");
                message.append(schema.as_str());
                message.append("`.");
                let mut evidence: Vec<Evidence> = Vec::new();
                let mut text0 = String::from_str("A mapped schema must declare the complete, non-empty identity of one logical message.");
                evidence.push(Evidence { subject: Option::Some(schema.clone()), message: text0 });
                proof {
                    assert(evidence_pairs(evidence@) =~= validation_evidence(*self));
                }
                (Option::Some(outbox.clone()), message, evidence)
            },
            ValidationError::OutboxMessageIdentityArityMismatch { outbox, schema, expected, actual } => {
                let mut message = String::from_str("Outbox `");
                message.append(outbox.as_str());
                message.append("` maps the message identity of `");
                message.append(schema.as_str());
                message.append("` with ");
                push_decimal(&mut message, *actual);
                message.append(" field(s), but other mapped schemas use ");
                push_decimal(&mut message, *expected);
                message.append(".");
                let mut evidence: Vec<Evidence> = Vec::new();
                let mut text0 = String::from_str("Identity tuple positions correspond across schemas, so every mapped tuple must have the same arity.");
                evidence.push(Evidence { subject: Option::Some(schema.clone()), message: text0 });
                proof {
                    assert(evidence_pairs(evidence@) =~= validation_evidence(*self));
                }
                (Option::Some(outbox.clone()), message, evidence)
            },
            ValidationError::OutboxOutsideDataModel { transaction, effect, data_model, outbox } => {
                let mut message = String::from_str("Outbox write `");
                message.append(effect.as_str());
                message.append("` in transaction `");
                message.append(transaction.as_str());
                message.append("` targets outbox `");
                message.append(outbox.as_str());
                message.append("`, which does not belong to the transaction's data model `");
                message.append(data_model.as_str());
                message.append("`.");
                let mut evidence: Vec<Evidence> = Vec::new();
                let mut text0 = String::from_str("An outbox write is atomic with its containing transaction's commit, so the destination outbox must belong to the declared data model; Conseqa never infers a distributed cross-data-model atomic transaction.");
                evidence.push(Evidence { subject: Option::Some(outbox.clone()), message: text0 });
                proof {
                    assert(evidence_pairs(evidence@) =~= validation_evidence(*self));
                }
                (Option::Some(effect.clone()), message, evidence)
            },
            ValidationError::OutboxWriteMissingDataModel { transaction, effect, outbox } => {
                let mut message = String::from_str("Outbox write `");
                message.append(effect.as_str());
                message.append("` targets outbox `");
                message.append(outbox.as_str());
                message.append("`, but its transaction `");
                message.append(transaction.as_str());
                message.append("` declares no data model.");
                let mut evidence: Vec<Evidence> = Vec::new();
                let mut text0 = String::from_str("A transaction admitting an outbox message must declare the data model that owns the outbox — the atomic boundary the admission participates in.");
                evidence.push(Evidence { subject: Option::Some(transaction.clone()), message: text0 });
                proof {
                    assert(evidence_pairs(evidence@) =~= validation_evidence(*self));
                }
                (Option::Some(effect.clone()), message, evidence)
            },
            ValidationError::OutboxWriteOutsideTransaction { operation, effect } => {
                let mut message = String::from_str("`");
                message.append(operation.as_str());
                message.append("` executes outbox write `");
                message.append(effect.as_str());
                message.append("` outside a transaction.");
                let mut evidence: Vec<Evidence> = Vec::new();
                let mut text0 = String::from_str("An `OutboxWriteEffect`'s only legal execution site is a transaction's `write_outbox` step: outside one, no containing application transaction exists whose commit could make the admission atomic.");
                evidence.push(Evidence { subject: Option::Some(effect.clone()), message: text0 });
                proof {
                    assert(evidence_pairs(evidence@) =~= validation_evidence(*self));
                }
                (Option::Some(operation.clone()), message, evidence)
            },
            ValidationError::OutboxWriteCannotBeIntent { transaction, effect } => {
                let mut message = String::from_str("Transaction `");
                message.append(transaction.as_str());
                message.append("` establishes outbox write `");
                message.append(effect.as_str());
                message.append("` as an effect intent.");
                let mut evidence: Vec<Evidence> = Vec::new();
                let mut text0 = String::from_str("An outbox message is durable typed application data admitted atomically with a commit, not a captured effect instance for later execution; write it with a `write_outbox` step instead.");
                evidence.push(Evidence { subject: Option::Some(transaction.clone()), message: text0 });
                proof {
                    assert(evidence_pairs(evidence@) =~= validation_evidence(*self));
                }
                (Option::Some(effect.clone()), message, evidence)
            },
            ValidationError::OutboxPartitionSchemaNotAdmitted { input, outbox, schema } => {
                let mut message = String::from_str("The outbox runtime of `");
                message.append(input.as_str());
                message.append("` maps a partition key for schema `");
                message.append(schema.as_str());
                message.append("`, which outbox `");
                message.append(outbox.as_str());
                message.append("` does not admit.");
                let mut evidence: Vec<Evidence> = Vec::new();
                let mut text0 = String::from_str("The outbox does not declare schema `");
                text0.append(schema.as_str());
                text0.append("` as a message.");
                evidence.push(Evidence { subject: Option::Some(outbox.clone()), message: text0 });
                proof {
                    assert(evidence_pairs(evidence@) =~= validation_evidence(*self));
                }
                (Option::Some(input.clone()), message, evidence)
            },
            ValidationError::OutboxPartitionMissingSchema { input, outbox, schema } => {
                let mut message = String::from_str("The outbox runtime of `");
                message.append(input.as_str());
                message.append("` declares keyed partitioning but maps no partition key for `");
                message.append(schema.as_str());
                message.append("`, which the input admits from outbox `");
                message.append(outbox.as_str());
                message.append("`.");
                let mut evidence: Vec<Evidence> = Vec::new();
                let mut text0 = String::from_str("Every message schema admitted through the target input must map into the common partition-key domain; an unmapped one would belong to no partition.");
                evidence.push(Evidence { subject: Option::Some(schema.clone()), message: text0 });
                proof {
                    assert(evidence_pairs(evidence@) =~= validation_evidence(*self));
                }
                (Option::Some(input.clone()), message, evidence)
            },
            ValidationError::EmptyOutboxPartitionKey { input, schema } => {
                let mut message = String::from_str("The outbox runtime of `");
                message.append(input.as_str());
                message.append("` maps `");
                message.append(schema.as_str());
                message.append("` to an empty partition-key tuple, which names no partition.");
                let mut evidence: Vec<Evidence> = Vec::new();
                proof {
                    assert(evidence_pairs(evidence@) =~= validation_evidence(*self));
                }
                (Option::Some(input.clone()), message, evidence)
            },
            ValidationError::OutboxPartitionKeyArityMismatch { input, schema, expected, actual } => {
                let mut message = String::from_str("The outbox runtime of `");
                message.append(input.as_str());
                message.append("` maps the partition key of `");
                message.append(schema.as_str());
                message.append("` with ");
                push_decimal(&mut message, *actual);
                message.append(" field(s), but other mapped schemas use ");
                push_decimal(&mut message, *expected);
                message.append(".");
                let mut evidence: Vec<Evidence> = Vec::new();
                let mut text0 = String::from_str("Partition-key tuple positions correspond across schemas, so every mapped tuple must have the same arity.");
                evidence.push(Evidence { subject: Option::Some(schema.clone()), message: text0 });
                proof {
                    assert(evidence_pairs(evidence@) =~= validation_evidence(*self));
                }
                (Option::Some(input.clone()), message, evidence)
            },
            ValidationError::PartitionOrderingWithoutPartitioning { input } => {
                let mut message = String::from_str("The outbox runtime of `");
                message.append(input.as_str());
                message.append("` declares `ordering: partition` with `partitioning: none`.");
                let mut evidence: Vec<Evidence> = Vec::new();
                let mut text0 = String::from_str("Partition ordering is an independent order within each keyed partition; without keyed partitioning no domain exists for the guarantee to be interpreted over.");
                evidence.push(Evidence { subject: Option::Some(input.clone()), message: text0 });
                proof {
                    assert(evidence_pairs(evidence@) =~= validation_evidence(*self));
                }
                (Option::Some(input.clone()), message, evidence)
            },
            ValidationError::OutboxRoutingWithoutPartitioning { operation, input, outbox } => {
                let mut message = String::from_str("`");
                message.append(input.as_str());
                message.append("` of `");
                message.append(operation.as_str());
                message.append("` dispatches by `partition_key`, but the outbox runtime declares `partitioning: none` for `");
                message.append(outbox.as_str());
                message.append("`.");
                let mut evidence: Vec<Evidence> = Vec::new();
                let mut text0 = String::from_str("Routing consumes an already-declared semantic key rather than inventing one: declare keyed `partitioning`, or omit the routing block.");
                evidence.push(Evidence { subject: Option::Some(outbox.clone()), message: text0 });
                proof {
                    assert(evidence_pairs(evidence@) =~= validation_evidence(*self));
                }
                (Option::Some(input.clone()), message, evidence)
            },
        };
        let code = ValidationError::code(self);
        Diagnostic { code: DiagnosticCode::Validation(code), severity: Severity::Error, subject, message, evidence }
    }
}

} // verus!
