//! The kinds of declaration a reference may name, and how diagnostics
//! name them.

use vstd::prelude::*;

use crate::model::ResultVariant;

verus! {

#[derive(Debug, Clone, Copy, PartialEq, Eq, Structural)]
pub enum ReferenceKind {
    Service,
    Schema,
    DataModel,
    DataObject,
    Outbox,
    Topic,
    StateMachine,
    State,
    Transition,
    Operation,
    Input,
    Effect,
    EffectIntent,
    TransactionOutput,
    Transaction,
    TransactionRead,
    /// A result binding declared by an effect-executing program step.
    EffectResult,
    /// An asynchronous-execution handle bound by an async launch step.
    AsyncHandle,
    ExecutionPool,
    Router,
    StorageLayout,
}

pub open spec fn reference_kind_text(kind: ReferenceKind) -> Seq<char> {
    match kind {
        ReferenceKind::Service => "service"@,
        ReferenceKind::Schema => "schema"@,
        ReferenceKind::DataModel => "data model"@,
        ReferenceKind::DataObject => "data object"@,
        ReferenceKind::Outbox => "outbox"@,
        ReferenceKind::Topic => "topic"@,
        ReferenceKind::StateMachine => "state machine"@,
        ReferenceKind::State => "state"@,
        ReferenceKind::Transition => "transition"@,
        ReferenceKind::Operation => "operation"@,
        ReferenceKind::Input => "input"@,
        ReferenceKind::Effect => "effect"@,
        ReferenceKind::EffectIntent => "effect intent"@,
        ReferenceKind::TransactionOutput => "transaction output"@,
        ReferenceKind::Transaction => "transaction"@,
        ReferenceKind::TransactionRead => "transaction read"@,
        ReferenceKind::EffectResult => "effect result binding"@,
        ReferenceKind::AsyncHandle => "async handle"@,
        ReferenceKind::ExecutionPool => "execution pool"@,
        ReferenceKind::Router => "router"@,
        ReferenceKind::StorageLayout => "storage layout"@,
    }
}

impl ReferenceKind {
    /// The kind as a diagnostic names it.
    pub fn text(&self) -> (r: &'static str)
        ensures
            r@ == reference_kind_text(*self),
    {
        match self {
            ReferenceKind::Service => "service",
            ReferenceKind::Schema => "schema",
            ReferenceKind::DataModel => "data model",
            ReferenceKind::DataObject => "data object",
            ReferenceKind::Outbox => "outbox",
            ReferenceKind::Topic => "topic",
            ReferenceKind::StateMachine => "state machine",
            ReferenceKind::State => "state",
            ReferenceKind::Transition => "transition",
            ReferenceKind::Operation => "operation",
            ReferenceKind::Input => "input",
            ReferenceKind::Effect => "effect",
            ReferenceKind::EffectIntent => "effect intent",
            ReferenceKind::TransactionOutput => "transaction output",
            ReferenceKind::Transaction => "transaction",
            ReferenceKind::TransactionRead => "transaction read",
            ReferenceKind::EffectResult => "effect result binding",
            ReferenceKind::AsyncHandle => "async handle",
            ReferenceKind::ExecutionPool => "execution pool",
            ReferenceKind::Router => "router",
            ReferenceKind::StorageLayout => "storage layout",
        }
    }
}

/// The variant of an effect result as a diagnostic names it.
pub open spec fn variant_text(variant: ResultVariant) -> Seq<char> {
    match variant {
        ResultVariant::Success => "ok"@,
        ResultVariant::Failure => "err"@,
    }
}

impl ResultVariant {
    pub fn text(&self) -> (r: &'static str)
        ensures
            r@ == variant_text(*self),
    {
        match self {
            ResultVariant::Success => "ok",
            ResultVariant::Failure => "err",
        }
    }
}

} // verus!
