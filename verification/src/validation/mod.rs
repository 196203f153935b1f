//! Validation: whether a model is structurally coherent.

pub mod availability;
pub mod declarations;
pub mod error;
pub mod programs;
pub mod reference;

use vstd::prelude::*;

use self::error::ValidationError;
use self::reference::ReferenceKind;

verus! {

#[derive(Debug, Clone, Copy, PartialEq, Eq, Structural)]
pub enum InputKind {
    Request,
    Subscription,
}

pub open spec fn input_kind_text(kind: InputKind) -> Seq<char> {
    match kind {
        InputKind::Request => "request input"@,
        InputKind::Subscription => "subscription input"@,
    }
}

impl InputKind {
    pub fn text(&self) -> (r: &'static str)
        ensures
            r@ == input_kind_text(*self),
    {
        match self {
            InputKind::Request => "request input",
            InputKind::Subscription => "subscription input",
        }
    }
}


/// The reference kinds that can only ever name a declaration
/// established within the same operation program.
pub open spec fn program_owned(kind: ReferenceKind) -> bool {
    ||| kind == ReferenceKind::EffectIntent
    ||| kind == ReferenceKind::EffectResult
    ||| kind == ReferenceKind::TransactionOutput
    ||| kind == ReferenceKind::Transaction
    ||| kind == ReferenceKind::TransactionRead
}

pub fn is_program_owned_kind(kind: ReferenceKind) -> (r: bool)
    ensures
        r == program_owned(kind),
{
    match kind {
        ReferenceKind::EffectIntent
        | ReferenceKind::EffectResult
        | ReferenceKind::TransactionOutput
        | ReferenceKind::Transaction
        | ReferenceKind::TransactionRead => true,
        _ => false,
    }
}

/// Whether a validation error is fully determined by one operation's
/// own program, inputs and the shared symbols, so that it can be
/// surfaced from a model that omits the other operations. Reference
/// errors count only for the kinds that can name nothing outside the
/// program.
pub open spec fn program_local(error: ValidationError) -> bool {
    match error {
        ValidationError::ProgramNotTerminated { .. }
        | ValidationError::UnreachableProgramStep { .. }
        | ValidationError::TransactionArtifactNotAvailable { .. }
        | ValidationError::EffectResultNotBound { .. }
        | ValidationError::EffectResultVariantOutOfScope { .. }
        | ValidationError::EffectHasNoResult { .. }
        | ValidationError::TransactionReadOutsideTransaction { .. }
        | ValidationError::TransactionReadOutOfOrder { .. }
        | ValidationError::TransactionReadFieldNotSelected { .. }
        | ValidationError::ValueSourceOutOfScope { .. }
        | ValidationError::InvalidReferenceOwner { .. } => true,
        ValidationError::UnknownReference { expected, .. } => program_owned(expected),
        ValidationError::InvalidReferenceKind { expected, .. } => program_owned(expected),
        _ => false,
    }
}

pub fn is_program_local_error(error: &ValidationError) -> (r: bool)
    ensures
        r == program_local(*error),
{
    match error {
        ValidationError::ProgramNotTerminated { .. }
        | ValidationError::UnreachableProgramStep { .. }
        | ValidationError::TransactionArtifactNotAvailable { .. }
        | ValidationError::EffectResultNotBound { .. }
        | ValidationError::EffectResultVariantOutOfScope { .. }
        | ValidationError::EffectHasNoResult { .. }
        | ValidationError::TransactionReadOutsideTransaction { .. }
        | ValidationError::TransactionReadOutOfOrder { .. }
        | ValidationError::TransactionReadFieldNotSelected { .. }
        | ValidationError::ValueSourceOutOfScope { .. }
        | ValidationError::InvalidReferenceOwner { .. } => true,
        ValidationError::UnknownReference { expected, .. } => is_program_owned_kind(*expected),
        ValidationError::InvalidReferenceKind { expected, .. } => is_program_owned_kind(*expected),
        _ => false,
    }
}

} // verus!
