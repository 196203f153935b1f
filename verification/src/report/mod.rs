//! The obligation report: the flattened, presentation-oriented
//! projection of verification results.
//!
//! Obligations are enumerated per declared requirement. A proven
//! obligation carries the declared facts its proof relies on; an
//! unproven one carries the checker's evidence. `unknown` is epistemic,
//! never a violation.
//!
//! `scaffold` enumerates every obligation the declared requirements
//! imply, all `unknown`; `obligations` fills the same enumeration in
//! from a verification report.

pub mod assumptions;

use vstd::prelude::*;

use crate::model::{
    lemma_program_transactions_complete, program_holds, OperationStep, TransactionExecution,
    block_transactions, source_id, CompletionRequirement, Id, IdempotencyRequirement, Model,
    Operation, RecoverabilityRequirement, ResultReplayRequirement, SerializabilityRequirement,
    Transaction, TransactionOrderingRequirement, ValueRef,
};
use crate::diagnostic::{Diagnostic, Evidence};
use crate::verification::idempotency::{
    idempotency_evidence_subject, idempotency_evidence_text, IdempotencyCheck,
    IdempotencyObstacle, IdempotencyProof, IdempotencyVerdict, IdentityLineage, LineageFact,
    LineageSource, PathRetrySafety, ProducerRef,
};
use crate::verification::notes::{note_subject, note_text, ModelNote};
use crate::verification::recoverability::{
    note_evidence_subject, note_evidence_text, recoverability_evidence_subject,
    recoverability_evidence_text, RecoverabilityCheck, RecoverabilityNote, RecoverabilityObstacle,
    RecoverabilityVerdict,
};
use crate::verification::replay::{DecisionReplay, DecisionRule};
use crate::verification::result_replay::{
    result_replay_evidence_subject, result_replay_evidence_text, ResultReplayCheck,
    ResultReplayObstacle, ResultReplayVerdict,
};
use crate::verification::VerificationReport;

use self::assumptions::{
    decision_label, decision_label_text, idempotency_assumptions, idempotency_lines,
    recoverability_assumptions, recoverability_lines, result_replay_assumptions,
    result_replay_lines,
};
use crate::text::{decimal, push_decimal};
use crate::verification::scope::{ProofScope, RemedyLayer};

verus! {

/// The version of the report format.
pub const FORMAT: u32 = 7;

pub struct ProverReport {
    /// Version of this report format, not of the model.
    pub format: u32,
    /// Revision of the model the report was produced against.
    pub model_revision: Option<u64>,
    pub obligations: Vec<Obligation>,
    /// Model-wide notes that belong to no single obligation.
    pub notes: Vec<EvidenceItem>,
}

pub struct Obligation {
    /// Stable identity of the obligation within the report.
    pub id: String,
    pub property: Property,
    pub subject: Subject,
    pub status: Status,
    /// One-line statement of the obligation.
    pub summary: String,
    /// Which semantic layers a proof consumed; absent unless proven.
    pub scope: Option<ProofScope>,
    /// Which semantic layer an unproven obligation waits on.
    pub remedy: Option<RemedyLayer>,
    /// Declared model facts the verdict relies on.
    pub assumptions: Vec<String>,
    /// Model facts explaining how the verdict was reached.
    pub evidence: Vec<EvidenceItem>,
    /// Present only when `status` is `Disproven`.
    pub counterexample: Option<Counterexample>,
}

/// The correctness property an obligation discharges.
pub enum Property {
    TransactionSerializability,
    TransactionOrdering,
    Idempotency,
    Recoverability,
    ResultReplay,
    Custom { name: String },
}

/// The model entity an obligation is anchored to; `requirement`
/// indexes the requirement list that produced it.
pub enum Subject {
    Operation { operation: Id, requirement: Option<usize> },
    Transaction { operation: Id, transaction: Id, requirement: Option<usize> },
    Object { data_model: Id, object: Id },
    StateMachine { machine: Id, transition: Option<Id> },
    Topic { topic: Id },
}

#[derive(Debug, Clone, Copy, PartialEq, Eq, Structural)]
pub enum Status {
    /// The property follows for all executions admitted by the model.
    Proven,
    /// An admitted execution violates the property.
    Disproven,
    /// Not decided, typically because a required fact is unspecified.
    Unknown,
}

pub struct EvidenceItem {
    /// Model entity the fact concerns, when one applies.
    pub subject: Option<Id>,
    pub message: String,
}

/// A concrete admitted execution that violates the property.
pub struct Counterexample {
    pub trace: Vec<TraceStep>,
}

pub struct TraceStep {
    /// Entity performing the step, when one applies.
    pub actor: Option<Id>,
    pub description: String,
}

// Views.

pub open spec fn item_view(item: EvidenceItem) -> (Option<Id>, Seq<char>) {
    (item.subject, item.message@)
}

pub open spec fn items_view(items: Seq<EvidenceItem>) -> Seq<(Option<Id>, Seq<char>)> {
    items.map_values(|item: EvidenceItem| item_view(item))
}

pub open spec fn strings_view(lines: Seq<String>) -> Seq<Seq<char>> {
    lines.map_values(|line: String| line@)
}

pub open spec fn trace_view(counterexample: Option<Counterexample>) -> Option<
    Seq<(Option<Id>, Seq<char>)>,
> {
    match counterexample {
        Option::Some(c) => Option::Some(
            c.trace@.map_values(|step: TraceStep| (step.actor, step.description@)),
        ),
        Option::None => Option::None,
    }
}

/// An obligation by the text of its strings.
pub struct ObligationView {
    pub id: Seq<char>,
    pub property: Property,
    pub subject: Subject,
    pub status: Status,
    pub summary: Seq<char>,
    pub scope: Option<ProofScope>,
    pub remedy: Option<RemedyLayer>,
    pub assumptions: Seq<Seq<char>>,
    pub evidence: Seq<(Option<Id>, Seq<char>)>,
    pub counterexample: Option<Seq<(Option<Id>, Seq<char>)>>,
}

pub open spec fn obligation_view(o: Obligation) -> ObligationView {
    ObligationView {
        id: o.id@,
        property: o.property,
        subject: o.subject,
        status: o.status,
        summary: o.summary@,
        scope: o.scope,
        remedy: o.remedy,
        assumptions: strings_view(o.assumptions@),
        evidence: items_view(o.evidence@),
        counterexample: trace_view(o.counterexample),
    }
}

pub open spec fn obligations_view(obligations: Seq<Obligation>) -> Seq<ObligationView> {
    obligations.map_values(|o: Obligation| obligation_view(o))
}

/// An obligation the scaffold enumerates: unknown, with nothing
/// assumed and no evidence yet.
pub open spec fn fresh(
    id: Seq<char>,
    property: Property,
    subject: Subject,
    summary: Seq<char>,
) -> ObligationView {
    ObligationView {
        id,
        property,
        subject,
        status: Status::Unknown,
        summary,
        scope: Option::None,
        remedy: Option::None,
        assumptions: Seq::empty(),
        evidence: Seq::empty(),
        counterexample: Option::None,
    }
}

// Labels and identities.

pub open spec fn slug_text(property: Property) -> Seq<char> {
    match property {
        Property::TransactionSerializability => "transaction_serializability"@,
        Property::TransactionOrdering => "transaction_ordering"@,
        Property::Idempotency => "idempotency"@,
        Property::Recoverability => "recoverability"@,
        Property::ResultReplay => "result_replay"@,
        Property::Custom { name } => name@,
    }
}

/// The slug a property contributes to obligation identities.
pub fn property_slug(property: &Property) -> (r: &str)
    ensures
        r@ == slug_text(*property),
{
    match property {
        Property::TransactionSerializability => "transaction_serializability",
        Property::TransactionOrdering => "transaction_ordering",
        Property::Idempotency => "idempotency",
        Property::Recoverability => "recoverability",
        Property::ResultReplay => "result_replay",
        Property::Custom { name } => name.as_str(),
    }
}

pub open spec fn obligation_id_text(operation: Seq<char>, slug: Seq<char>, requirement: nat) -> Seq<
    char,
> {
    "oblig."@ + operation + "."@ + slug + "."@ + decimal(requirement)
}

/// The identity of the obligation of an operation's requirement.
pub fn obligation_id(operation: &Id, slug: &str, requirement: usize) -> (r: String)
    ensures
        r@ == obligation_id_text(operation@, slug@, requirement as nat),
{
    let mut id = String::from_str("oblig.");
    id.append(operation.as_str());
    id.append(".");
    id.append(slug);
    id.append(".");
    push_decimal(&mut id, requirement);
    id
}

pub open spec fn transaction_obligation_id_text(
    operation: Seq<char>,
    transaction: Seq<char>,
    slug: Seq<char>,
    requirement: nat,
) -> Seq<char> {
    "oblig."@ + operation + "."@ + transaction + "."@ + slug + "."@ + decimal(requirement)
}

/// The identity of the obligation of a transaction's requirement.
pub fn transaction_obligation_id(
    operation: &Id,
    transaction: &Id,
    slug: &str,
    requirement: usize,
) -> (r: String)
    ensures
        r@ == transaction_obligation_id_text(operation@, transaction@, slug@, requirement as nat),
{
    let mut id = String::from_str("oblig.");
    id.append(operation.as_str());
    id.append(".");
    id.append(transaction.as_str());
    id.append(".");
    id.append(slug);
    id.append(".");
    push_decimal(&mut id, requirement);
    id
}

pub open spec fn value_ref_label_text(value: ValueRef) -> Seq<char> {
    source_id(value.source)@ + "."@ + value.path.text@
}

/// A value reference as a report line names it: `source.path`.
pub fn value_ref_label(value: &ValueRef) -> (r: String)
    ensures
        r@ == value_ref_label_text(*value),
{
    let mut label = String::from_str(value.source.id().as_str());
    label.append(".");
    label.append(value.path.text.as_str());
    label
}

pub open spec fn coinductive_text(through: Seq<char>) -> Seq<char> {
    "proven coinductively: this requirement and the ones it reaches through "@ + through
        + " each rest on the others, and the greatest fixpoint admits the cycle (effect-safety draft \u{a7}4.1)"@
}

/// The assumption line of a proof that rests on a cycle of
/// requirements reached through `through`.
pub fn coinductive_note(through: &str) -> (r: String)
    ensures
        r@ == coinductive_text(through@),
{
    let mut note = String::from_str(
        "proven coinductively: this requirement and the ones it reaches through ",
    );
    note.append(through);
    note.append(
        " each rest on the others, and the greatest fixpoint admits the cycle (effect-safety draft \u{a7}4.1)",
    );
    note
}

// The scaffold.

pub open spec fn serializability_summary(transaction: Transaction, key: ValueRef) -> Seq<char> {
    "Executions of "@ + transaction.id@ + " sharing key "@ + value_ref_label_text(key)
        + " commit in a history equivalent to some serial order, together with every transaction they may conflict with."@
}

pub open spec fn ordering_summary(transaction: Transaction, requirement: TransactionOrderingRequirement) -> Seq<
    char,
> {
    "Executions of "@ + transaction.id@ + " sharing key "@ + value_ref_label_text(requirement.key)
        + " take effect in the order of "@ + value_ref_label_text(requirement.position) + "."@
}

/// The obligations of the first `count` serializability requirements
/// of a transaction of `operation`.
pub open spec fn serializability_views(operation: Id, transaction: Transaction, count: nat) -> Seq<
    ObligationView,
>
    decreases count,
{
    let requirements = transaction.requirements.serializability@;
    if count == 0 || count > requirements.len() {
        Seq::empty()
    } else {
        let i = count - 1;
        serializability_views(operation, transaction, (count - 1) as nat).push(
            fresh(
                transaction_obligation_id_text(
                    operation@,
                    transaction.id@,
                    "transaction_serializability"@,
                    i as nat,
                ),
                Property::TransactionSerializability,
                Subject::Transaction {
                    operation,
                    transaction: transaction.id,
                    requirement: Option::Some(i as usize),
                },
                serializability_summary(transaction, requirements[i].key),
            ),
        )
    }
}

/// The obligations of the first `count` ordering requirements of a
/// transaction of `operation`.
pub open spec fn transaction_ordering_views(operation: Id, transaction: Transaction, count: nat) -> Seq<
    ObligationView,
>
    decreases count,
{
    let requirements = transaction.requirements.ordering@;
    if count == 0 || count > requirements.len() {
        Seq::empty()
    } else {
        let i = count - 1;
        transaction_ordering_views(operation, transaction, (count - 1) as nat).push(
            fresh(
                transaction_obligation_id_text(
                    operation@,
                    transaction.id@,
                    "transaction_ordering"@,
                    i as nat,
                ),
                Property::TransactionOrdering,
                Subject::Transaction {
                    operation,
                    transaction: transaction.id,
                    requirement: Option::Some(i as usize),
                },
                ordering_summary(transaction, requirements[i]),
            ),
        )
    }
}

/// The obligations of the first `count` transactions of `operation`.
pub open spec fn transactions_views(operation: Id, transactions: Seq<Transaction>, count: nat) -> Seq<
    ObligationView,
>
    decreases count,
{
    if count == 0 || count > transactions.len() {
        Seq::empty()
    } else {
        let transaction = transactions[count - 1];
        transactions_views(operation, transactions, (count - 1) as nat) + serializability_views(
            operation,
            transaction,
            transaction.requirements.serializability@.len(),
        ) + transaction_ordering_views(
            operation,
            transaction,
            transaction.requirements.ordering@.len(),
        )
    }
}

pub open spec fn requirement_subject(operation: Id, index: int) -> Subject {
    Subject::Operation { operation, requirement: Option::Some(index as usize) }
}

pub open spec fn idempotency_summary(operation: Id) -> Seq<char> {
    "Repeated attempts at "@ + operation@
        + " sharing the declared key produce the effects of a single invocation."@
}

pub open spec fn result_replay_summary(operation: Id) -> Seq<char> {
    "Every attempt at "@ + operation@ + " sharing the declared key returns an equivalent result."@
}

/// The obligations of the first `count` idempotency requirements: one
/// each, and a result-replay one after each that asks for it.
pub open spec fn idempotency_views(operation: Id, requirements: Seq<IdempotencyRequirement>, count: nat) -> Seq<
    ObligationView,
>
    decreases count,
{
    if count == 0 || count > requirements.len() {
        Seq::empty()
    } else {
        let i = count - 1;
        let earlier = idempotency_views(operation, requirements, (count - 1) as nat).push(
            fresh(
                obligation_id_text(operation@, "idempotency"@, i as nat),
                Property::Idempotency,
                requirement_subject(operation, i),
                idempotency_summary(operation),
            ),
        );
        if requirements[i].result == ResultReplayRequirement::ReplayConsistent {
            earlier.push(
                fresh(
                    obligation_id_text(operation@, "result_replay"@, i as nat),
                    Property::ResultReplay,
                    requirement_subject(operation, i),
                    result_replay_summary(operation),
                ),
            )
        } else {
            earlier
        }
    }
}

pub open spec fn recoverability_summary(operation: Id, completion: CompletionRequirement) -> Seq<
    char,
> {
    "An interrupted invocation of "@ + operation@ + " "@ + match completion {
        CompletionRequirement::Resumable => "can be resumed to reach"@,
        CompletionRequirement::Guaranteed => "is re-driven until it reaches"@,
    } + " a terminal of its program."@
}

pub open spec fn recoverability_views(
    operation: Id,
    requirements: Seq<RecoverabilityRequirement>,
    count: nat,
) -> Seq<ObligationView>
    decreases count,
{
    if count == 0 || count > requirements.len() {
        Seq::empty()
    } else {
        let i = count - 1;
        recoverability_views(operation, requirements, (count - 1) as nat).push(
            fresh(
                obligation_id_text(operation@, "recoverability"@, i as nat),
                Property::Recoverability,
                requirement_subject(operation, i),
                recoverability_summary(operation, requirements[i].completion),
            ),
        )
    }
}

/// Every obligation one operation's requirements imply: its
/// transactions' first, in program order, then its own.
pub open spec fn operation_views(operation_id: Id, operation: Operation) -> Seq<ObligationView> {
    let transactions = block_transactions(operation.program);
    transactions_views(operation_id, transactions, transactions.len()) + idempotency_views(
        operation_id,
        operation.requirements.idempotency@,
        operation.requirements.idempotency@.len(),
    ) + recoverability_views(
        operation_id,
        operation.requirements.recoverability@,
        operation.requirements.recoverability@.len(),
    )
}

/// Every obligation the first `count` operations imply, in model
/// order.
pub open spec fn scaffold_views(operations: Seq<(Id, Operation)>, count: nat) -> Seq<ObligationView>
    decreases count,
{
    if count == 0 || count > operations.len() {
        Seq::empty()
    } else {
        scaffold_views(operations, (count - 1) as nat) + operation_views(
            operations[count - 1].0,
            operations[count - 1].1,
        )
    }
}

/// A fresh obligation.
fn fresh_obligation(id: String, property: Property, subject: Subject, summary: String) -> (r:
    Obligation)
    ensures
        obligation_view(r) == fresh(id@, property, subject, summary@),
{
    let r = Obligation {
        id,
        property,
        subject,
        status: Status::Unknown,
        summary,
        scope: Option::None,
        remedy: Option::None,
        assumptions: Vec::new(),
        evidence: Vec::new(),
        counterexample: Option::None,
    };
    proof {
        assert(strings_view(r.assumptions@) =~= Seq::empty());
        assert(items_view(r.evidence@) =~= Seq::empty());
    }
    r
}

/// Appends `obligation`, whose view is then the last of the list.
fn push_obligation(out: &mut Vec<Obligation>, obligation: Obligation)
    ensures
        obligations_view(final(out)@) == obligations_view(old(out)@).push(
            obligation_view(obligation),
        ),
{
    let ghost before = out@;
    out.push(obligation);
    proof {
        assert(obligations_view(out@) =~= obligations_view(before).push(
            obligation_view(obligation),
        ));
    }
}

fn push_transaction_obligations(out: &mut Vec<Obligation>, operation: &Id, transaction: &Transaction)
    ensures
        obligations_view(final(out)@) == obligations_view(old(out)@) + serializability_views(
            *operation,
            *transaction,
            transaction.requirements.serializability@.len(),
        ) + transaction_ordering_views(
            *operation,
            *transaction,
            transaction.requirements.ordering@.len(),
        ),
{
    let ghost start = obligations_view(out@);
    let requirements = &transaction.requirements.serializability;
    let mut i: usize = 0;
    while i < requirements.len()
        invariant
            i <= requirements@.len(),
            *requirements == transaction.requirements.serializability,
            obligations_view(out@) == start + serializability_views(
                *operation,
                *transaction,
                i as nat,
            ),
        decreases requirements@.len() - i,
    {
        let id = transaction_obligation_id(
            operation,
            &transaction.id,
            "transaction_serializability",
            i,
        );
        let mut summary = String::from_str("Executions of ");
        summary.append(transaction.id.as_str());
        summary.append(" sharing key ");
        let label = value_ref_label(&requirements[i].key);
        summary.append(label.as_str());
        summary.append(
            " commit in a history equivalent to some serial order, together with every transaction they may conflict with.",
        );
        let subject = Subject::Transaction {
            operation: operation.clone(),
            transaction: transaction.id.clone(),
            requirement: Option::Some(i),
        };
        push_obligation(
            out,
            fresh_obligation(id, Property::TransactionSerializability, subject, summary),
        );
        i += 1;
    }
    let ghost middle = obligations_view(out@);
    let requirements = &transaction.requirements.ordering;
    let mut i: usize = 0;
    while i < requirements.len()
        invariant
            i <= requirements@.len(),
            *requirements == transaction.requirements.ordering,
            obligations_view(out@) == middle + transaction_ordering_views(
                *operation,
                *transaction,
                i as nat,
            ),
        decreases requirements@.len() - i,
    {
        let id = transaction_obligation_id(operation, &transaction.id, "transaction_ordering", i);
        let mut summary = String::from_str("Executions of ");
        summary.append(transaction.id.as_str());
        summary.append(" sharing key ");
        let key = value_ref_label(&requirements[i].key);
        summary.append(key.as_str());
        summary.append(" take effect in the order of ");
        let position = value_ref_label(&requirements[i].position);
        summary.append(position.as_str());
        summary.append(".");
        let subject = Subject::Transaction {
            operation: operation.clone(),
            transaction: transaction.id.clone(),
            requirement: Option::Some(i),
        };
        push_obligation(out, fresh_obligation(id, Property::TransactionOrdering, subject, summary));
        i += 1;
    }
}

fn push_operation_obligations(out: &mut Vec<Obligation>, operation_id: &Id, operation: &Operation)
    ensures
        obligations_view(final(out)@) == obligations_view(old(out)@) + operation_views(
            *operation_id,
            *operation,
        ),
{
    let ghost start = obligations_view(out@);
    let transactions = operation.program.transactions();
    let ghost all = block_transactions(operation.program);
    let mut t: usize = 0;
    while t < transactions.len()
        invariant
            t <= transactions@.len(),
            crate::model::derefs(transactions@) == all,
            obligations_view(out@) == start + transactions_views(*operation_id, all, t as nat),
        decreases transactions@.len() - t,
    {
        let transaction: &Transaction = transactions[t];
        proof {
            assert(*transaction == all[t as int]);
        }
        push_transaction_obligations(out, operation_id, transaction);
        proof {
            assert(obligations_view(out@) =~= start + transactions_views(
                *operation_id,
                all,
                (t + 1) as nat,
            ));
        }
        t += 1;
    }
    let ghost after_transactions = obligations_view(out@);
    let requirements = &operation.requirements.idempotency;
    let mut i: usize = 0;
    while i < requirements.len()
        invariant
            i <= requirements@.len(),
            *requirements == operation.requirements.idempotency,
            obligations_view(out@) == after_transactions + idempotency_views(
                *operation_id,
                requirements@,
                i as nat,
            ),
        decreases requirements@.len() - i,
    {
        let id = obligation_id(operation_id, "idempotency", i);
        let mut summary = String::from_str("Repeated attempts at ");
        summary.append(operation_id.as_str());
        summary.append(" sharing the declared key produce the effects of a single invocation.");
        let subject = Subject::Operation {
            operation: operation_id.clone(),
            requirement: Option::Some(i),
        };
        push_obligation(out, fresh_obligation(id, Property::Idempotency, subject, summary));
        if requirements[i].result == ResultReplayRequirement::ReplayConsistent {
            let id = obligation_id(operation_id, "result_replay", i);
            let mut summary = String::from_str("Every attempt at ");
            summary.append(operation_id.as_str());
            summary.append(" sharing the declared key returns an equivalent result.");
            let subject = Subject::Operation {
                operation: operation_id.clone(),
                requirement: Option::Some(i),
            };
            push_obligation(out, fresh_obligation(id, Property::ResultReplay, subject, summary));
        }
        i += 1;
    }
    let ghost after_idempotency = obligations_view(out@);
    let requirements = &operation.requirements.recoverability;
    let mut i: usize = 0;
    while i < requirements.len()
        invariant
            i <= requirements@.len(),
            *requirements == operation.requirements.recoverability,
            obligations_view(out@) == after_idempotency + recoverability_views(
                *operation_id,
                requirements@,
                i as nat,
            ),
        decreases requirements@.len() - i,
    {
        let id = obligation_id(operation_id, "recoverability", i);
        let mut summary = String::from_str("An interrupted invocation of ");
        summary.append(operation_id.as_str());
        summary.append(" ");
        match requirements[i].completion {
            CompletionRequirement::Resumable => summary.append("can be resumed to reach"),
            CompletionRequirement::Guaranteed => summary.append("is re-driven until it reaches"),
        }
        summary.append(" a terminal of its program.");
        proof {
            assert(summary@ =~= recoverability_summary(
                *operation_id,
                requirements@[i as int].completion,
            ));
        }
        let subject = Subject::Operation {
            operation: operation_id.clone(),
            requirement: Option::Some(i),
        };
        push_obligation(out, fresh_obligation(id, Property::Recoverability, subject, summary));
        i += 1;
    }
    proof {
        assert(obligations_view(out@) =~= start + operation_views(*operation_id, *operation));
    }
}

/// A report enumerating every obligation the declared requirements
/// imply, all unknown: per operation in model order, its transactions'
/// obligations in program order, then its idempotency (each followed
/// by its result-replay obligation when the requirement asks for one)
/// and recoverability obligations.
pub fn scaffold(model: &Model) -> (r: ProverReport)
    ensures
        r.format == FORMAT,
        r.model_revision == Option::Some(model.revision),
        obligations_view(r.obligations@) == scaffold_views(
            model.operations@,
            model.operations@.len(),
        ),
        r.notes@.len() == 0,
{
    let mut obligations: Vec<Obligation> = Vec::new();
    let mut i: usize = 0;
    while i < model.operations.len()
        invariant
            i <= model.operations@.len(),
            obligations_view(obligations@) == scaffold_views(model.operations@, i as nat),
        decreases model.operations@.len() - i,
    {
        push_operation_obligations(&mut obligations, &model.operations[i].0, &model.operations[i].1);
        i += 1;
    }
    ProverReport {
        format: FORMAT,
        model_revision: Option::Some(model.revision),
        obligations,
        notes: Vec::new(),
    }
}

// Filling the scaffold in.

/// How a verdict fills its obligation in: a proof's scope and
/// assumptions, or the evidence of the diagnostic an unproven verdict
/// reports, when it reports one.
pub type VerdictView = Result<(ProofScope, Seq<Seq<char>>), Option<Seq<(Option<Id>, Seq<char>)>>>;

/// The index of the first obligation with identity `id` at or after
/// `from`.
pub open spec fn find_from(obligations: Seq<ObligationView>, id: Seq<char>, from: int) -> Option<int>
    decreases obligations.len() - from,
{
    if from < 0 || from >= obligations.len() {
        Option::None
    } else if obligations[from].id == id {
        Option::Some(from)
    } else {
        find_from(obligations, id, from + 1)
    }
}

pub open spec fn find_id(obligations: Seq<ObligationView>, id: Seq<char>) -> Option<int> {
    find_from(obligations, id, 0)
}

pub open spec fn with_verdict(o: ObligationView, verdict: VerdictView) -> ObligationView {
    match verdict {
        Result::Ok((scope, assumptions)) => ObligationView {
            status: Status::Proven,
            scope: Option::Some(scope),
            assumptions,
            ..o
        },
        Result::Err(evidence) => ObligationView {
            status: Status::Unknown,
            evidence: match evidence {
                Option::Some(items) => items,
                Option::None => o.evidence,
            },
            ..o
        },
    }
}

/// `obligations` with `change` applied to the first obligation with
/// identity `id`, if there is one.
pub open spec fn patched(obligations: Seq<ObligationView>, id: Seq<char>, verdict: VerdictView) -> Seq<
    ObligationView,
> {
    match find_id(obligations, id) {
        Option::Some(k) => obligations.update(k, with_verdict(obligations[k], verdict)),
        Option::None => obligations,
    }
}

pub open spec fn with_remedy(obligations: Seq<ObligationView>, id: Seq<char>, remedy: Option<RemedyLayer>) -> Seq<
    ObligationView,
> {
    match find_id(obligations, id) {
        Option::Some(k) => obligations.update(k, ObligationView { remedy, ..obligations[k] }),
        Option::None => obligations,
    }
}

proof fn lemma_find_from(obligations: Seq<ObligationView>, id: Seq<char>, from: int, k: int)
    requires
        0 <= from <= k < obligations.len(),
        obligations[k].id == id,
        forall|j: int| from <= j < k ==> obligations[j].id != id,
    ensures
        find_from(obligations, id, from) == Option::Some(k),
    decreases k - from,
{
    if from < k {
        lemma_find_from(obligations, id, from + 1, k);
    }
}

proof fn lemma_find_none(obligations: Seq<ObligationView>, id: Seq<char>, from: int)
    requires
        0 <= from <= obligations.len(),
        forall|j: int| from <= j < obligations.len() ==> obligations[j].id != id,
    ensures
        find_from(obligations, id, from) is None,
    decreases obligations.len() - from,
{
    if from < obligations.len() {
        lemma_find_none(obligations, id, from + 1);
    }
}

/// The index of the first obligation with identity `id`.
fn find_obligation(obligations: &Vec<Obligation>, id: &Id) -> (r: Option<usize>)
    ensures
        match find_id(obligations_view(obligations@), id@) {
            Option::Some(k) => r matches Option::Some(i) && i as int == k && 0 <= k
                < obligations@.len(),
            Option::None => r is None,
        },
{
    let ghost views = obligations_view(obligations@);
    let mut i: usize = 0;
    while i < obligations.len()
        invariant
            i <= obligations@.len(),
            views == obligations_view(obligations@),
            forall|j: int| 0 <= j < i ==> views[j].id != id@,
        decreases obligations@.len() - i,
    {
        proof {
            assert(views[i as int] == obligation_view(obligations@[i as int]));
        }
        if obligations[i].id == *id {
            proof {
                lemma_find_from(views, id@, 0, i as int);
            }
            return Option::Some(i);
        }
        i += 1;
    }
    proof {
        lemma_find_none(views, id@, 0);
    }
    Option::None
}

pub open spec fn diagnostic_items(d: Diagnostic) -> Seq<(Option<Id>, Seq<char>)> {
    d.evidence@.map_values(|e: Evidence| (e.subject, e.message@))
}

fn copy_subject(subject: &Option<Id>) -> (r: Option<Id>)
    ensures
        r == *subject,
{
    match subject {
        Option::Some(id) => Option::Some(id.clone()),
        Option::None => Option::None,
    }
}

/// The evidence of a diagnostic as report items.
fn evidence_items(d: &Diagnostic) -> (r: Vec<EvidenceItem>)
    ensures
        items_view(r@) == diagnostic_items(*d),
{
    let mut items: Vec<EvidenceItem> = Vec::new();
    let mut i: usize = 0;
    while i < d.evidence.len()
        invariant
            i <= d.evidence@.len(),
            items_view(items@) == diagnostic_items(*d).take(i as int),
        decreases d.evidence@.len() - i,
    {
        let evidence = &d.evidence[i];
        let ghost before = items@;
        let item = EvidenceItem {
            subject: copy_subject(&evidence.subject),
            message: evidence.message.clone(),
        };
        items.push(item);
        proof {
            assert(items_view(items@) =~= items_view(before).push(item_view(item)));
            assert(item_view(item) == diagnostic_items(*d)[i as int]);
            assert(diagnostic_items(*d).take(i + 1) =~= diagnostic_items(*d).take(i as int).push(
                diagnostic_items(*d)[i as int],
            ));
        }
        i += 1;
    }
    proof {
        assert(diagnostic_items(*d).take(d.evidence@.len() as int) =~= diagnostic_items(*d));
    }
    items
}

pub open spec fn verdict_view(verdict: Result<(ProofScope, Vec<String>), Option<Diagnostic>>) -> VerdictView {
    match verdict {
        Result::Ok((scope, assumptions)) => Result::Ok((scope, strings_view(assumptions@))),
        Result::Err(Option::Some(d)) => Result::Err(Option::Some(diagnostic_items(d))),
        Result::Err(Option::None) => Result::Err(Option::None),
    }
}

/// Applies one check's verdict to its scaffolded obligation: a proof
/// makes it proven with its scope and assumptions; an unproven verdict
/// leaves it unknown, with the diagnostic's evidence.
pub fn patch(
    report: &mut ProverReport,
    id: &Id,
    verdict: Result<(ProofScope, Vec<String>), Option<Diagnostic>>,
)
    ensures
        final(report).format == old(report).format,
        final(report).model_revision == old(report).model_revision,
        final(report).notes == old(report).notes,
        obligations_view(final(report).obligations@) == patched(
            obligations_view(old(report).obligations@),
            id@,
            verdict_view(verdict),
        ),
{
    let ghost before = obligations_view(report.obligations@);
    let found = find_obligation(&report.obligations, id);
    let k = match found {
        Option::Some(k) => k,
        Option::None => {
            return;
        },
    };
    let ghost old_item = report.obligations@[k as int];
    match verdict {
        Result::Ok((scope, assumptions)) => {
            report.obligations[k].status = Status::Proven;
            report.obligations[k].scope = Option::Some(scope);
            report.obligations[k].assumptions = assumptions;
        },
        Result::Err(diagnostic) => {
            report.obligations[k].status = Status::Unknown;
            match diagnostic {
                Option::Some(d) => {
                    report.obligations[k].evidence = evidence_items(&d);
                },
                Option::None => {},
            }
        },
    }
    proof {
        assert(find_id(before, id@) == Option::Some(k as int));
        assert(obligations_view(report.obligations@) =~= before.update(
            k as int,
            with_verdict(before[k as int], verdict_view(verdict)),
        ));
        assert(patched(before, id@, verdict_view(verdict)) == before.update(
            k as int,
            with_verdict(before[k as int], verdict_view(verdict)),
        ));
    }
}

/// Records which layer an unproven obligation is waiting on.
pub fn set_remedy(report: &mut ProverReport, id: &Id, remedy: Option<RemedyLayer>)
    ensures
        final(report).format == old(report).format,
        final(report).model_revision == old(report).model_revision,
        final(report).notes == old(report).notes,
        obligations_view(final(report).obligations@) == with_remedy(
            obligations_view(old(report).obligations@),
            id@,
            remedy,
        ),
{
    let ghost before = obligations_view(report.obligations@);
    match find_obligation(&report.obligations, id) {
        Option::Some(k) => {
            report.obligations[k].remedy = remedy;
            proof {
                assert(find_id(before, id@) == Option::Some(k as int));
                assert(obligations_view(report.obligations@) =~= before.update(
                    k as int,
                    ObligationView { remedy, ..before[k as int] },
                ));
            }
        },
        Option::None => {},
    }
}

// The report of a verification.

pub open spec fn idempotency_verdict_view(check: IdempotencyCheck) -> VerdictView {
    match check.verdict {
        IdempotencyVerdict::Proven { argument, scope } => Result::Ok(
            (scope, idempotency_lines(argument)),
        ),
        IdempotencyVerdict::Unproven { obstacles } => Result::Err(
            Option::Some(
                obstacles@.map_values(
                    |o: IdempotencyObstacle|
                        (idempotency_evidence_subject(o), idempotency_evidence_text(o)),
                ),
            ),
        ),
    }
}

pub open spec fn result_replay_verdict_view(check: ResultReplayCheck) -> VerdictView {
    match check.verdict {
        ResultReplayVerdict::Proven { argument, scope } => Result::Ok(
            (scope, result_replay_lines(argument)),
        ),
        ResultReplayVerdict::Unproven { obstacles } => Result::Err(
            Option::Some(
                obstacles@.map_values(
                    |o: ResultReplayObstacle|
                        (result_replay_evidence_subject(o), result_replay_evidence_text(o)),
                ),
            ),
        ),
    }
}

pub open spec fn recoverability_verdict_view(check: RecoverabilityCheck) -> VerdictView {
    match check.verdict {
        RecoverabilityVerdict::Proven { argument, scope } => Result::Ok(
            (scope, recoverability_lines(argument)),
        ),
        RecoverabilityVerdict::Unproven { obstacles } => Result::Err(
            Option::Some(
                obstacles@.map_values(
                    |o: RecoverabilityObstacle|
                        (recoverability_evidence_subject(o), recoverability_evidence_text(o)),
                ),
            ),
        ),
    }
}

/// The evidence a derived structural admission contributes: the
/// analyzer proved it from program structure, so it is evidence, not
/// an assumption.
pub open spec fn admission_item(decision: DecisionReplay) -> Option<(Option<Id>, Seq<char>)> {
    match decision.rule {
        DecisionRule::IdempotencyInertContinuation => Option::Some(
            (
                Option::None,
                decision_label_text(decision.decision)
                    + " is not established to replay; every continuation to a terminal is idempotency-inert, so divergence cannot add modeled work and may affect only terminal construction \u{2014} which is the result-replay obligation's concern, not this one's."@,
            ),
        ),
        DecisionRule::OutcomeDivergenceAddsNoWork { transaction } => Option::Some(
            (
                Option::Some(transaction),
                decision_label_text(decision.decision)
                    + " is not established to replay; a rejection commits nothing and performs only its rejection block's work, judged duplicate-safe on its own path, so divergence between rejection and commit cannot duplicate modeled work \u{2014} the returned result is the result-replay obligation's concern."@,
            ),
        ),
        _ => Option::None,
    }
}

pub open spec fn admission_items(decisions: Seq<DecisionReplay>, count: nat) -> Seq<
    (Option<Id>, Seq<char>),
>
    decreases count,
{
    if count == 0 || count > decisions.len() {
        Seq::empty()
    } else {
        let earlier = admission_items(decisions, (count - 1) as nat);
        match admission_item(decisions[count - 1]) {
            Option::Some(item) => earlier.push(item),
            Option::None => earlier,
        }
    }
}

pub open spec fn paths_admissions(paths: Seq<PathRetrySafety>, count: nat) -> Seq<
    (Option<Id>, Seq<char>),
>
    decreases count,
{
    if count == 0 || count > paths.len() {
        Seq::empty()
    } else {
        paths_admissions(paths, (count - 1) as nat) + admission_items(
            paths[count - 1].decisions@,
            paths[count - 1].decisions@.len(),
        )
    }
}

pub open spec fn check_admissions(check: IdempotencyCheck) -> Seq<(Option<Id>, Seq<char>)> {
    match check.verdict {
        IdempotencyVerdict::Proven { argument: IdempotencyProof::RetrySafePaths { paths }, .. } => paths_admissions(
            paths@,
            paths@.len(),
        ),
        _ => Seq::empty(),
    }
}

pub open spec fn producer_text(producer: ProducerRef) -> Seq<char> {
    match producer {
        ProducerRef::Operation { operation, effect } => operation@ + " through "@ + effect@,
        ProducerRef::Transition { machine, transition, effect } => machine@ + "'s "@ + transition@
            + " through "@ + effect@,
    }
}

pub open spec fn producer_effect(producer: ProducerRef) -> Id {
    match producer {
        ProducerRef::Operation { effect, .. } => effect,
        ProducerRef::Transition { effect, .. } => effect,
    }
}

pub open spec fn source_label(source: LineageSource) -> Id {
    match source {
        LineageSource::Topic { topic } => topic,
        LineageSource::Outbox { outbox } => outbox,
    }
}

pub open spec fn source_kind(source: LineageSource) -> Seq<char> {
    match source {
        LineageSource::Topic { .. } => "topic"@,
        LineageSource::Outbox { .. } => "outbox"@,
    }
}

/// The components of a key by label, joined by `+`.
pub open spec fn key_text(components: Seq<ValueRef>, count: nat) -> Seq<char>
    decreases count,
{
    if count == 0 || count > components.len() {
        Seq::empty()
    } else if count == 1 {
        value_ref_label_text(components[0])
    } else {
        key_text(components, (count - 1) as nat) + " + "@ + value_ref_label_text(
            components[count - 1],
        )
    }
}

pub open spec fn lineage_assumption(lineage: IdentityLineage) -> Option<Seq<char>> {
    match lineage.fact {
        LineageFact::Propagated { source, requirement } => {
            let key = key_text(source.components@, source.components@.len());
            Option::Some(
                match requirement {
                    Option::Some(index) => "the identity of "@ + lineage.schema@ + " on "@
                        + source_label(lineage.source)@
                        + " is carried by its producer's idempotency key ("@ + key
                        + ", requirement #"@ + decimal(index as nat)
                        + "): declared propagation from "@ + producer_text(lineage.producer),
                    Option::None => "the identity of "@ + lineage.schema@ + " on "@ + source_label(
                        lineage.source,
                    )@ + " carries "@ + key + " by declared propagation from "@ + producer_text(
                        lineage.producer,
                    ),
                },
            )
        },
        LineageFact::Undeclared => Option::None,
    }
}

pub open spec fn lineage_item(lineage: IdentityLineage) -> Option<(Option<Id>, Seq<char>)> {
    match lineage.fact {
        LineageFact::Undeclared => Option::Some(
            (
                Option::Some(producer_effect(lineage.producer)),
                producer_text(lineage.producer) + " produces "@ + lineage.schema@ + " into "@
                    + source_label(lineage.source)@
                    + " without a declared propagation onto its identity fields; the identity this population rests on is the "@
                    + source_kind(lineage.source) + " declaration alone."@,
            ),
        ),
        _ => Option::None,
    }
}

pub open spec fn lineage_assumptions(lineages: Seq<IdentityLineage>, count: nat) -> Seq<Seq<char>>
    decreases count,
{
    if count == 0 || count > lineages.len() {
        Seq::empty()
    } else {
        let earlier = lineage_assumptions(lineages, (count - 1) as nat);
        match lineage_assumption(lineages[count - 1]) {
            Option::Some(line) => earlier.push(line),
            Option::None => earlier,
        }
    }
}

pub open spec fn lineage_items(lineages: Seq<IdentityLineage>, count: nat) -> Seq<
    (Option<Id>, Seq<char>),
>
    decreases count,
{
    if count == 0 || count > lineages.len() {
        Seq::empty()
    } else {
        let earlier = lineage_items(lineages, (count - 1) as nat);
        match lineage_item(lineages[count - 1]) {
            Option::Some(item) => earlier.push(item),
            Option::None => earlier,
        }
    }
}

/// The rest of an idempotency obligation: evidence for each structural
/// admission, a coinductive note ahead of the other assumptions, and
/// the lineage facts.
pub open spec fn idempotency_extras(o: ObligationView, check: IdempotencyCheck) -> ObligationView {
    ObligationView {
        assumptions: (if check.coinductive {
            seq![coinductive_text("request targets or message consumers"@)] + o.assumptions
        } else {
            o.assumptions
        }) + lineage_assumptions(check.lineage@, check.lineage@.len()),
        evidence: o.evidence + check_admissions(check) + lineage_items(
            check.lineage@,
            check.lineage@.len(),
        ),
        ..o
    }
}

pub open spec fn after_idempotency(obligations: Seq<ObligationView>, check: IdempotencyCheck) -> Seq<
    ObligationView,
> {
    let id = obligation_id_text(check.operation@, "idempotency"@, check.requirement as nat);
    let filled = patched(obligations, id, idempotency_verdict_view(check));
    match find_id(filled, id) {
        Option::Some(k) => filled.update(k, idempotency_extras(filled[k], check)),
        Option::None => filled,
    }
}

pub open spec fn after_result_replay(obligations: Seq<ObligationView>, check: ResultReplayCheck) -> Seq<
    ObligationView,
> {
    let id = obligation_id_text(check.operation@, "result_replay"@, check.requirement as nat);
    let filled = patched(obligations, id, result_replay_verdict_view(check));
    match find_id(filled, id) {
        Option::Some(k) => if check.coinductive {
            filled.update(
                k,
                ObligationView {
                    assumptions: seq![coinductive_text("request effects"@)] + filled[k].assumptions,
                    ..filled[k]
                },
            )
        } else {
            filled
        },
        Option::None => filled,
    }
}

pub open spec fn after_recoverability(obligations: Seq<ObligationView>, check: RecoverabilityCheck) -> Seq<
    ObligationView,
> {
    let id = obligation_id_text(check.operation@, "recoverability"@, check.requirement as nat);
    let filled = patched(obligations, id, recoverability_verdict_view(check));
    match find_id(filled, id) {
        Option::Some(k) => filled.update(
            k,
            ObligationView {
                evidence: filled[k].evidence + check.notes@.map_values(
                    |note: RecoverabilityNote| (note_evidence_subject(note), note_evidence_text(note)),
                ),
                ..filled[k]
            },
        ),
        Option::None => filled,
    }
}

pub open spec fn fold_idempotency(
    obligations: Seq<ObligationView>,
    checks: Seq<IdempotencyCheck>,
    count: nat,
) -> Seq<ObligationView>
    decreases count,
{
    if count == 0 || count > checks.len() {
        obligations
    } else {
        after_idempotency(fold_idempotency(obligations, checks, (count - 1) as nat), checks[count - 1])
    }
}

pub open spec fn fold_result_replay(
    obligations: Seq<ObligationView>,
    checks: Seq<ResultReplayCheck>,
    count: nat,
) -> Seq<ObligationView>
    decreases count,
{
    if count == 0 || count > checks.len() {
        obligations
    } else {
        after_result_replay(
            fold_result_replay(obligations, checks, (count - 1) as nat),
            checks[count - 1],
        )
    }
}

pub open spec fn fold_recoverability(
    obligations: Seq<ObligationView>,
    checks: Seq<RecoverabilityCheck>,
    count: nat,
) -> Seq<ObligationView>
    decreases count,
{
    if count == 0 || count > checks.len() {
        obligations
    } else {
        after_recoverability(
            fold_recoverability(obligations, checks, (count - 1) as nat),
            checks[count - 1],
        )
    }
}

/// The obligations of a verification: the scaffold, with every
/// idempotency, then result-replay, then recoverability verdict applied
/// to its obligation in report order.
pub open spec fn report_views(model: Model, verification: VerificationReport) -> Seq<ObligationView> {
    let scaffolded = scaffold_views(model.operations@, model.operations@.len());
    let idempotent = fold_idempotency(
        scaffolded,
        verification.idempotency@,
        verification.idempotency@.len(),
    );
    let replayed = fold_result_replay(
        idempotent,
        verification.result_replay@,
        verification.result_replay@.len(),
    );
    fold_recoverability(replayed, verification.recoverability@, verification.recoverability@.len())
}

pub open spec fn notes_view(notes: Seq<ModelNote>) -> Seq<(Option<Id>, Seq<char>)> {
    notes.map_values(|note: ModelNote| (note_subject(note), note_text(note)))
}

fn push_item(items: &mut Vec<EvidenceItem>, item: EvidenceItem)
    ensures
        items_view(final(items)@) == items_view(old(items)@).push(item_view(item)),
{
    let ghost before = items@;
    items.push(item);
    proof {
        assert(items_view(items@) =~= items_view(before).push(item_view(item)));
    }
}

/// The label of a key's components, joined by `+`.
fn key_label(components: &Vec<ValueRef>) -> (r: String)
    ensures
        r@ == key_text(components@, components@.len()),
{
    let mut text = String::new();
    let mut i: usize = 0;
    while i < components.len()
        invariant
            i <= components@.len(),
            text@ == key_text(components@, i as nat),
        decreases components@.len() - i,
    {
        let label = value_ref_label(&components[i]);
        if i > 0 {
            text.append(" + ");
        }
        text.append(label.as_str());
        proof {
            assert(text@ =~= key_text(components@, (i + 1) as nat));
        }
        i += 1;
    }
    text
}

fn producer_label(producer: &ProducerRef) -> (r: String)
    ensures
        r@ == producer_text(*producer),
{
    match producer {
        ProducerRef::Operation { operation, effect } => {
            let mut text = String::from_str(operation.as_str());
            text.append(" through ");
            text.append(effect.as_str());
            text
        },
        ProducerRef::Transition { machine, transition, effect } => {
            let mut text = String::from_str(machine.as_str());
            text.append("'s ");
            text.append(transition.as_str());
            text.append(" through ");
            text.append(effect.as_str());
            text
        },
    }
}

/// Adds the admissions, coinductive note and lineage facts of an
/// idempotency check to its obligation.
fn add_idempotency_extras(o: &mut Obligation, check: &IdempotencyCheck)
    ensures
        obligation_view(*final(o)) == idempotency_extras(obligation_view(*old(o)), *check),
{
    let ghost start = obligation_view(*o);
    match &check.verdict {
        IdempotencyVerdict::Proven { argument: IdempotencyProof::RetrySafePaths { paths }, .. } => {
            let mut p: usize = 0;
            while p < paths.len()
                invariant
                    p <= paths@.len(),
                    obligation_view(*o) == (ObligationView {
                        evidence: start.evidence + paths_admissions(paths@, p as nat),
                        ..start
                    }),
                decreases paths@.len() - p,
            {
                let decisions = &paths[p].decisions;
                let ghost base = obligation_view(*o);
                let mut i: usize = 0;
                while i < decisions.len()
                    invariant
                        i <= decisions@.len(),
                        *decisions == paths@[p as int].decisions,
                        obligation_view(*o) == (ObligationView {
                            evidence: base.evidence + admission_items(decisions@, i as nat),
                            ..base
                        }),
                    decreases decisions@.len() - i,
                {
                    let decision = &decisions[i];
                    match &decision.rule {
                        DecisionRule::IdempotencyInertContinuation => {
                            let mut message = decision_label(&decision.decision);
                            message.append(
                                " is not established to replay; every continuation to a terminal is idempotency-inert, so divergence cannot add modeled work and may affect only terminal construction \u{2014} which is the result-replay obligation's concern, not this one's.",
                            );
                            push_item(&mut o.evidence, EvidenceItem { subject: Option::None, message });
                        },
                        DecisionRule::OutcomeDivergenceAddsNoWork { transaction } => {
                            let mut message = decision_label(&decision.decision);
                            message.append(
                                " is not established to replay; a rejection commits nothing and performs only its rejection block's work, judged duplicate-safe on its own path, so divergence between rejection and commit cannot duplicate modeled work \u{2014} the returned result is the result-replay obligation's concern.",
                            );
                            push_item(
                                &mut o.evidence,
                                EvidenceItem { subject: Option::Some(transaction.clone()), message },
                            );
                        },
                        _ => {},
                    }
                    proof {
                        assert(obligation_view(*o).evidence =~= base.evidence + admission_items(
                            decisions@,
                            (i + 1) as nat,
                        ));
                    }
                    i += 1;
                }
                proof {
                    assert(obligation_view(*o).evidence =~= start.evidence + paths_admissions(
                        paths@,
                        (p + 1) as nat,
                    ));
                }
                p += 1;
            }
        },
        _ => {},
    }
    proof {
        assert(obligation_view(*o).evidence =~= start.evidence + check_admissions(*check));
    }
    let ghost admitted = obligation_view(*o);
    if check.coinductive {
        let ghost before = o.assumptions@;
        o.assumptions.insert(0, coinductive_note("request targets or message consumers"));
        proof {
            assert(strings_view(o.assumptions@) =~= seq![
                coinductive_text("request targets or message consumers"@),
            ] + strings_view(before));
        }
    }
    let ghost noted = obligation_view(*o);
    let mut i: usize = 0;
    while i < check.lineage.len()
        invariant
            i <= check.lineage@.len(),
            obligation_view(*o) == (ObligationView {
                assumptions: noted.assumptions + lineage_assumptions(check.lineage@, i as nat),
                evidence: noted.evidence + lineage_items(check.lineage@, i as nat),
                ..noted
            }),
        decreases check.lineage@.len() - i,
    {
        let lineage = &check.lineage[i];
        let producer = producer_label(&lineage.producer);
        let (label, kind) = match &lineage.source {
            LineageSource::Topic { topic } => (topic, "topic"),
            LineageSource::Outbox { outbox } => (outbox, "outbox"),
        };
        match &lineage.fact {
            LineageFact::Propagated { source, requirement } => {
                let key = key_label(&source.components);
                let mut line = String::from_str("the identity of ");
                line.append(lineage.schema.as_str());
                line.append(" on ");
                line.append(label.as_str());
                match requirement {
                    Option::Some(index) => {
                        line.append(" is carried by its producer's idempotency key (");
                        line.append(key.as_str());
                        line.append(", requirement #");
                        push_decimal(&mut line, *index);
                        line.append("): declared propagation from ");
                        line.append(producer.as_str());
                    },
                    Option::None => {
                        line.append(" carries ");
                        line.append(key.as_str());
                        line.append(" by declared propagation from ");
                        line.append(producer.as_str());
                    },
                }
                proof {
                    assert(lineage_assumption(*lineage) == Option::Some(line@));
                }
                let ghost before = o.assumptions@;
                o.assumptions.push(line);
                proof {
                    assert(strings_view(o.assumptions@) =~= strings_view(before).push(line@));
                }
            },
            LineageFact::Undeclared => {
                let effect = match &lineage.producer {
                    ProducerRef::Operation { effect, .. } => effect,
                    ProducerRef::Transition { effect, .. } => effect,
                };
                let mut message = producer;
                message.append(" produces ");
                message.append(lineage.schema.as_str());
                message.append(" into ");
                message.append(label.as_str());
                message.append(
                    " without a declared propagation onto its identity fields; the identity this population rests on is the ",
                );
                message.append(kind);
                message.append(" declaration alone.");
                let item = EvidenceItem { subject: Option::Some(effect.clone()), message };
                proof {
                    assert(lineage_item(*lineage) == Option::Some(item_view(item)));
                }
                push_item(&mut o.evidence, item);
            },
        }
        proof {
            assert(obligation_view(*o).assumptions =~= noted.assumptions + lineage_assumptions(
                check.lineage@,
                (i + 1) as nat,
            ));
            assert(obligation_view(*o).evidence =~= noted.evidence + lineage_items(
                check.lineage@,
                (i + 1) as nat,
            ));
        }
        i += 1;
    }
    proof {
        assert(obligation_view(*o).assumptions =~= idempotency_extras(start, *check).assumptions);
        assert(obligation_view(*o).evidence =~= idempotency_extras(start, *check).evidence);
    }
}

/// Puts `o` in place of the obligation at `k`.
fn replace_obligation(obligations: &mut Vec<Obligation>, k: usize, o: Obligation) -> (r: Obligation)
    requires
        k < old(obligations)@.len(),
    ensures
        r == old(obligations)@[k as int],
        final(obligations)@ == old(obligations)@.update(k as int, o),
{
    let ghost before = obligations@;
    let taken = obligations.remove(k);
    obligations.insert(k, o);
    proof {
        assert(obligations@ =~= before.update(k as int, o));
    }
    taken
}

fn apply_idempotency(report: &mut ProverReport, check: &IdempotencyCheck)
    ensures
        final(report).format == old(report).format,
        final(report).model_revision == old(report).model_revision,
        final(report).notes == old(report).notes,
        obligations_view(final(report).obligations@) == after_idempotency(
            obligations_view(old(report).obligations@),
            *check,
        ),
{
    let id = obligation_id(&check.operation, "idempotency", check.requirement);
    let verdict = match &check.verdict {
        IdempotencyVerdict::Proven { argument, scope } => Result::Ok(
            (*scope, idempotency_assumptions(argument)),
        ),
        IdempotencyVerdict::Unproven { obstacles } => {
            let d = check.diagnostic();
            proof {
                let dd = d->0;
                assert(diagnostic_items(dd) =~= obstacles@.map_values(
                    |o: IdempotencyObstacle|
                        (idempotency_evidence_subject(o), idempotency_evidence_text(o)),
                ));
            }
            Result::Err(d)
        },
    };
    proof {
        assert(verdict_view(verdict) == idempotency_verdict_view(*check));
    }
    patch(report, &id, verdict);
    let ghost filled = obligations_view(report.obligations@);
    match find_obligation(&report.obligations, &id) {
        Option::Some(k) => {
            let placeholder = fresh_obligation(
                String::new(),
                Property::Idempotency,
                Subject::Topic { topic: String::new() },
                String::new(),
            );
            let mut o = replace_obligation(&mut report.obligations, k, placeholder);
            add_idempotency_extras(&mut o, check);
            replace_obligation(&mut report.obligations, k, o);
            proof {
                assert(obligations_view(report.obligations@) =~= filled.update(
                    k as int,
                    idempotency_extras(filled[k as int], *check),
                ));
            }
        },
        Option::None => {},
    }
}

fn apply_result_replay(report: &mut ProverReport, check: &ResultReplayCheck)
    ensures
        final(report).format == old(report).format,
        final(report).model_revision == old(report).model_revision,
        final(report).notes == old(report).notes,
        obligations_view(final(report).obligations@) == after_result_replay(
            obligations_view(old(report).obligations@),
            *check,
        ),
{
    let id = obligation_id(&check.operation, "result_replay", check.requirement);
    let verdict = match &check.verdict {
        ResultReplayVerdict::Proven { argument, scope } => Result::Ok(
            (*scope, result_replay_assumptions(argument)),
        ),
        ResultReplayVerdict::Unproven { obstacles } => {
            let d = check.diagnostic();
            proof {
                let dd = d->0;
                assert(diagnostic_items(dd) =~= obstacles@.map_values(
                    |o: ResultReplayObstacle|
                        (result_replay_evidence_subject(o), result_replay_evidence_text(o)),
                ));
            }
            Result::Err(d)
        },
    };
    proof {
        assert(verdict_view(verdict) == result_replay_verdict_view(*check));
    }
    patch(report, &id, verdict);
    let ghost filled = obligations_view(report.obligations@);
    if check.coinductive {
        match find_obligation(&report.obligations, &id) {
            Option::Some(k) => {
                let ghost before = report.obligations@[k as int].assumptions@;
                report.obligations[k].assumptions.insert(0, coinductive_note("request effects"));
                proof {
                    assert(strings_view(report.obligations@[k as int].assumptions@) =~= seq![
                        coinductive_text("request effects"@),
                    ] + strings_view(before));
                    assert(obligations_view(report.obligations@) =~= filled.update(
                        k as int,
                        ObligationView {
                            assumptions: seq![coinductive_text("request effects"@)]
                                + filled[k as int].assumptions,
                            ..filled[k as int]
                        },
                    ));
                }
            },
            Option::None => {},
        }
    }
}

fn apply_recoverability(report: &mut ProverReport, check: &RecoverabilityCheck)
    ensures
        final(report).format == old(report).format,
        final(report).model_revision == old(report).model_revision,
        final(report).notes == old(report).notes,
        obligations_view(final(report).obligations@) == after_recoverability(
            obligations_view(old(report).obligations@),
            *check,
        ),
{
    let id = obligation_id(&check.operation, "recoverability", check.requirement);
    let verdict = match &check.verdict {
        RecoverabilityVerdict::Proven { argument, scope } => Result::Ok(
            (*scope, recoverability_assumptions(argument)),
        ),
        RecoverabilityVerdict::Unproven { obstacles } => {
            let d = check.diagnostic();
            proof {
                let dd = d->0;
                assert(diagnostic_items(dd) =~= obstacles@.map_values(
                    |o: RecoverabilityObstacle|
                        (recoverability_evidence_subject(o), recoverability_evidence_text(o)),
                ));
            }
            Result::Err(d)
        },
    };
    proof {
        assert(verdict_view(verdict) == recoverability_verdict_view(*check));
    }
    patch(report, &id, verdict);
    let ghost filled = obligations_view(report.obligations@);
    match find_obligation(&report.obligations, &id) {
        Option::Some(k) => {
            let placeholder = fresh_obligation(
                String::new(),
                Property::Recoverability,
                Subject::Topic { topic: String::new() },
                String::new(),
            );
            let mut o = replace_obligation(&mut report.obligations, k, placeholder);
            let ghost start = obligation_view(o);
            let mut i: usize = 0;
            while i < check.notes.len()
                invariant
                    i <= check.notes@.len(),
                    obligation_view(o) == (ObligationView {
                        evidence: start.evidence + check.notes@.take(i as int).map_values(
                            |note: RecoverabilityNote|
                                (note_evidence_subject(note), note_evidence_text(note)),
                        ),
                        ..start
                    }),
                decreases check.notes@.len() - i,
            {
                let evidence = check.notes[i].evidence();
                push_item(
                    &mut o.evidence,
                    EvidenceItem { subject: evidence.subject, message: evidence.message },
                );
                proof {
                    assert(check.notes@.take(i + 1).map_values(
                        |note: RecoverabilityNote|
                            (note_evidence_subject(note), note_evidence_text(note)),
                    ) =~= check.notes@.take(i as int).map_values(
                        |note: RecoverabilityNote|
                            (note_evidence_subject(note), note_evidence_text(note)),
                    ).push(
                        (
                            note_evidence_subject(check.notes@[i as int]),
                            note_evidence_text(check.notes@[i as int]),
                        ),
                    ));
                    assert(obligation_view(o).evidence =~= start.evidence + check.notes@.take(
                        i + 1,
                    ).map_values(
                        |note: RecoverabilityNote|
                            (note_evidence_subject(note), note_evidence_text(note)),
                    ));
                }
                i += 1;
            }
            proof {
                assert(check.notes@.take(check.notes@.len() as int) =~= check.notes@);
            }
            replace_obligation(&mut report.obligations, k, o);
            proof {
                assert(obligations_view(report.obligations@) =~= filled.update(
                    k as int,
                    ObligationView {
                        evidence: filled[k as int].evidence + check.notes@.map_values(
                            |note: RecoverabilityNote|
                                (note_evidence_subject(note), note_evidence_text(note)),
                        ),
                        ..filled[k as int]
                    },
                ));
            }
        },
        Option::None => {},
    }
}

/// The obligation report of a verification: the scaffold, with each
/// proven verdict's scope and assumptions and each unproven verdict's
/// evidence filled into its obligation, and the model-wide notes.
pub fn obligations(model: &Model, verification: &VerificationReport) -> (r: ProverReport)
    ensures
        r.format == FORMAT,
        r.model_revision == Option::Some(model.revision),
        obligations_view(r.obligations@) == report_views(*model, *verification),
        items_view(r.notes@) == notes_view(verification.notes@),
{
    let mut report = scaffold(model);
    let ghost scaffolded = obligations_view(report.obligations@);
    let mut i: usize = 0;
    while i < verification.idempotency.len()
        invariant
            i <= verification.idempotency@.len(),
            report.format == FORMAT,
            report.model_revision == Option::Some(model.revision),
            obligations_view(report.obligations@) == fold_idempotency(
                scaffolded,
                verification.idempotency@,
                i as nat,
            ),
        decreases verification.idempotency@.len() - i,
    {
        apply_idempotency(&mut report, &verification.idempotency[i]);
        i += 1;
    }
    let ghost idempotent = obligations_view(report.obligations@);
    let mut i: usize = 0;
    while i < verification.result_replay.len()
        invariant
            i <= verification.result_replay@.len(),
            report.format == FORMAT,
            report.model_revision == Option::Some(model.revision),
            obligations_view(report.obligations@) == fold_result_replay(
                idempotent,
                verification.result_replay@,
                i as nat,
            ),
        decreases verification.result_replay@.len() - i,
    {
        apply_result_replay(&mut report, &verification.result_replay[i]);
        i += 1;
    }
    let ghost replayed = obligations_view(report.obligations@);
    let mut i: usize = 0;
    while i < verification.recoverability.len()
        invariant
            i <= verification.recoverability@.len(),
            report.format == FORMAT,
            report.model_revision == Option::Some(model.revision),
            obligations_view(report.obligations@) == fold_recoverability(
                replayed,
                verification.recoverability@,
                i as nat,
            ),
        decreases verification.recoverability@.len() - i,
    {
        apply_recoverability(&mut report, &verification.recoverability[i]);
        i += 1;
    }
    let mut notes: Vec<EvidenceItem> = Vec::new();
    let mut i: usize = 0;
    while i < verification.notes.len()
        invariant
            i <= verification.notes@.len(),
            items_view(notes@) == notes_view(verification.notes@.take(i as int)),
        decreases verification.notes@.len() - i,
    {
        let note = &verification.notes[i];
        push_item(&mut notes, EvidenceItem { subject: note.subject(), message: note.message() });
        proof {
            assert(notes_view(verification.notes@.take(i + 1)) =~= notes_view(
                verification.notes@.take(i as int),
            ).push((note_subject(*note), note_text(*note))));
        }
        i += 1;
    }
    proof {
        assert(verification.notes@.take(verification.notes@.len() as int) =~= verification.notes@);
    }
    report.notes = notes;
    report
}


// What the report promises of its obligations.

/// An obligation as the scaffold enumerates it.
pub open spec fn is_fresh(o: ObligationView) -> bool {
    o == fresh(o.id, o.property, o.subject, o.summary)
}

pub open spec fn all_fresh(obligations: Seq<ObligationView>) -> bool {
    forall|i: int| 0 <= i < obligations.len() ==> is_fresh(#[trigger] obligations[i])
}

proof fn lemma_all_fresh_concat(first: Seq<ObligationView>, second: Seq<ObligationView>)
    requires
        all_fresh(first),
        all_fresh(second),
    ensures
        all_fresh(first + second),
{
    assert forall|i: int| 0 <= i < (first + second).len() implies is_fresh(
        #[trigger] (first + second)[i],
    ) by {
        if i < first.len() {
            assert((first + second)[i] == first[i]);
        } else {
            assert((first + second)[i] == second[i - first.len()]);
        }
    }
}

proof fn lemma_all_fresh_push(first: Seq<ObligationView>, o: ObligationView)
    requires
        all_fresh(first),
        is_fresh(o),
    ensures
        all_fresh(first.push(o)),
{
    assert forall|i: int| 0 <= i < first.push(o).len() implies is_fresh(#[trigger] first.push(o)[i]) by {
        if i < first.len() {
            assert(first.push(o)[i] == first[i]);
        }
    }
}

proof fn lemma_serializability_fresh(operation: Id, transaction: Transaction, count: nat)
    ensures
        all_fresh(serializability_views(operation, transaction, count)),
    decreases count,
{
    if count > 0 && count <= transaction.requirements.serializability@.len() {
        lemma_serializability_fresh(operation, transaction, (count - 1) as nat);
        let i = count - 1;
        lemma_all_fresh_push(
            serializability_views(operation, transaction, (count - 1) as nat),
            fresh(
                transaction_obligation_id_text(
                    operation@,
                    transaction.id@,
                    "transaction_serializability"@,
                    i as nat,
                ),
                Property::TransactionSerializability,
                Subject::Transaction {
                    operation,
                    transaction: transaction.id,
                    requirement: Option::Some(i as usize),
                },
                serializability_summary(
                    transaction,
                    transaction.requirements.serializability@[i].key,
                ),
            ),
        );
    }
}

proof fn lemma_transaction_ordering_fresh(operation: Id, transaction: Transaction, count: nat)
    ensures
        all_fresh(transaction_ordering_views(operation, transaction, count)),
    decreases count,
{
    if count > 0 && count <= transaction.requirements.ordering@.len() {
        lemma_transaction_ordering_fresh(operation, transaction, (count - 1) as nat);
        let i = count - 1;
        lemma_all_fresh_push(
            transaction_ordering_views(operation, transaction, (count - 1) as nat),
            fresh(
                transaction_obligation_id_text(
                    operation@,
                    transaction.id@,
                    "transaction_ordering"@,
                    i as nat,
                ),
                Property::TransactionOrdering,
                Subject::Transaction {
                    operation,
                    transaction: transaction.id,
                    requirement: Option::Some(i as usize),
                },
                ordering_summary(transaction, transaction.requirements.ordering@[i]),
            ),
        );
    }
}

proof fn lemma_transactions_fresh(operation: Id, transactions: Seq<Transaction>, count: nat)
    ensures
        all_fresh(transactions_views(operation, transactions, count)),
    decreases count,
{
    if count > 0 && count <= transactions.len() {
        let transaction = transactions[count - 1];
        lemma_transactions_fresh(operation, transactions, (count - 1) as nat);
        lemma_serializability_fresh(
            operation,
            transaction,
            transaction.requirements.serializability@.len(),
        );
        lemma_transaction_ordering_fresh(
            operation,
            transaction,
            transaction.requirements.ordering@.len(),
        );
        lemma_all_fresh_concat(
            transactions_views(operation, transactions, (count - 1) as nat),
            serializability_views(
                operation,
                transaction,
                transaction.requirements.serializability@.len(),
            ),
        );
        lemma_all_fresh_concat(
            transactions_views(operation, transactions, (count - 1) as nat) + serializability_views(
                operation,
                transaction,
                transaction.requirements.serializability@.len(),
            ),
            transaction_ordering_views(
                operation,
                transaction,
                transaction.requirements.ordering@.len(),
            ),
        );
    }
}

proof fn lemma_idempotency_fresh(operation: Id, requirements: Seq<IdempotencyRequirement>, count: nat)
    ensures
        all_fresh(idempotency_views(operation, requirements, count)),
    decreases count,
{
    if count > 0 && count <= requirements.len() {
        let i = count - 1;
        lemma_idempotency_fresh(operation, requirements, (count - 1) as nat);
        let first = fresh(
            obligation_id_text(operation@, "idempotency"@, i as nat),
            Property::Idempotency,
            requirement_subject(operation, i),
            idempotency_summary(operation),
        );
        lemma_all_fresh_push(idempotency_views(operation, requirements, (count - 1) as nat), first);
        lemma_all_fresh_push(
            idempotency_views(operation, requirements, (count - 1) as nat).push(first),
            fresh(
                obligation_id_text(operation@, "result_replay"@, i as nat),
                Property::ResultReplay,
                requirement_subject(operation, i),
                result_replay_summary(operation),
            ),
        );
    }
}

proof fn lemma_recoverability_fresh(
    operation: Id,
    requirements: Seq<RecoverabilityRequirement>,
    count: nat,
)
    ensures
        all_fresh(recoverability_views(operation, requirements, count)),
    decreases count,
{
    if count > 0 && count <= requirements.len() {
        let i = count - 1;
        lemma_recoverability_fresh(operation, requirements, (count - 1) as nat);
        lemma_all_fresh_push(
            recoverability_views(operation, requirements, (count - 1) as nat),
            recoverability_views(operation, requirements, count).last(),
        );
        assert(recoverability_views(operation, requirements, count) =~= recoverability_views(
            operation,
            requirements,
            (count - 1) as nat,
        ).push(recoverability_views(operation, requirements, count).last()));
    }
}

proof fn lemma_scaffold_views_fresh(operations: Seq<(Id, Operation)>, count: nat)
    ensures
        all_fresh(scaffold_views(operations, count)),
    decreases count,
{
    if count > 0 && count <= operations.len() {
        let (operation_id, operation) = operations[count - 1];
        let transactions = block_transactions(operation.program);
        lemma_scaffold_views_fresh(operations, (count - 1) as nat);
        lemma_transactions_fresh(operation_id, transactions, transactions.len());
        lemma_idempotency_fresh(
            operation_id,
            operation.requirements.idempotency@,
            operation.requirements.idempotency@.len(),
        );
        lemma_recoverability_fresh(
            operation_id,
            operation.requirements.recoverability@,
            operation.requirements.recoverability@.len(),
        );
        let t = transactions_views(operation_id, transactions, transactions.len());
        let d = idempotency_views(
            operation_id,
            operation.requirements.idempotency@,
            operation.requirements.idempotency@.len(),
        );
        let r = recoverability_views(
            operation_id,
            operation.requirements.recoverability@,
            operation.requirements.recoverability@.len(),
        );
        lemma_all_fresh_concat(t, d);
        lemma_all_fresh_concat(t + d, r);
        lemma_all_fresh_concat(scaffold_views(operations, (count - 1) as nat), t + d + r);
    }
}

/// Every obligation of the scaffold is unknown, with no scope, remedy,
/// assumption, evidence or counterexample.
pub proof fn lemma_scaffold_all_unknown(model: Model)
    ensures
        forall|i: int|
            0 <= i < scaffold_views(model.operations@, model.operations@.len()).len() ==> {
                let o = #[trigger] scaffold_views(model.operations@, model.operations@.len())[i];
                &&& o.status == Status::Unknown
                &&& o.scope is None
                &&& o.remedy is None
                &&& o.assumptions.len() == 0
                &&& o.evidence.len() == 0
                &&& o.counterexample is None
            },
{
    lemma_scaffold_views_fresh(model.operations@, model.operations@.len());
}

/// The two sequences enumerate the same obligations: the same
/// identities, properties, subjects and summaries, in the same order.
pub open spec fn same_enumeration(first: Seq<ObligationView>, second: Seq<ObligationView>) -> bool {
    &&& first.len() == second.len()
    &&& forall|i: int|
        0 <= i < first.len() ==> {
            &&& (#[trigger] first[i]).id == second[i].id
            &&& first[i].property == second[i].property
            &&& first[i].subject == second[i].subject
            &&& first[i].summary == second[i].summary
        }
}

/// What a verdict leaves of an obligation: never disproven, with no
/// counterexample and no remedy, and with a scope whenever it is
/// proven.
pub open spec fn verdict_shaped(o: ObligationView) -> bool {
    &&& o.status != Status::Disproven
    &&& o.counterexample is None
    &&& o.remedy is None
    &&& o.status == Status::Proven ==> o.scope is Some
}

pub open spec fn all_verdict_shaped(obligations: Seq<ObligationView>) -> bool {
    forall|i: int| 0 <= i < obligations.len() ==> verdict_shaped(#[trigger] obligations[i])
}

proof fn lemma_find_from_bounds(obligations: Seq<ObligationView>, id: Seq<char>, from: int)
    ensures
        find_from(obligations, id, from) matches Option::Some(k) ==> 0 <= k < obligations.len()
            && obligations[k].id == id,
    decreases obligations.len() - from,
{
    if 0 <= from < obligations.len() && obligations[from].id != id {
        lemma_find_from_bounds(obligations, id, from + 1);
    }
}

/// Updating one obligation with a change that keeps what the scaffold
/// enumerated and the shape of a verdict keeps both of everything.
proof fn lemma_update_keeps(
    base: Seq<ObligationView>,
    obligations: Seq<ObligationView>,
    k: int,
    o: ObligationView,
)
    requires
        same_enumeration(obligations, base),
        all_verdict_shaped(obligations),
        0 <= k < obligations.len(),
        o.id == obligations[k].id,
        o.property == obligations[k].property,
        o.subject == obligations[k].subject,
        o.summary == obligations[k].summary,
        verdict_shaped(o),
    ensures
        same_enumeration(obligations.update(k, o), base),
        all_verdict_shaped(obligations.update(k, o)),
{
    assert forall|i: int| 0 <= i < obligations.len() implies verdict_shaped(
        #[trigger] obligations.update(k, o)[i],
    ) by {
        if i != k {
            assert(obligations.update(k, o)[i] == obligations[i]);
        }
    }
}

proof fn lemma_patched_keeps(
    base: Seq<ObligationView>,
    obligations: Seq<ObligationView>,
    id: Seq<char>,
    verdict: VerdictView,
)
    requires
        same_enumeration(obligations, base),
        all_verdict_shaped(obligations),
    ensures
        same_enumeration(patched(obligations, id, verdict), base),
        all_verdict_shaped(patched(obligations, id, verdict)),
{
    lemma_find_from_bounds(obligations, id, 0);
    if let Option::Some(k) = find_id(obligations, id) {
        assert(verdict_shaped(obligations[k]));
        lemma_update_keeps(base, obligations, k, with_verdict(obligations[k], verdict));
    }
}

proof fn lemma_fold_idempotency_keeps(
    base: Seq<ObligationView>,
    obligations: Seq<ObligationView>,
    checks: Seq<IdempotencyCheck>,
    count: nat,
)
    requires
        same_enumeration(obligations, base),
        all_verdict_shaped(obligations),
    ensures
        same_enumeration(fold_idempotency(obligations, checks, count), base),
        all_verdict_shaped(fold_idempotency(obligations, checks, count)),
    decreases count,
{
    if count > 0 && count <= checks.len() {
        lemma_fold_idempotency_keeps(base, obligations, checks, (count - 1) as nat);
        let earlier = fold_idempotency(obligations, checks, (count - 1) as nat);
        let check = checks[count - 1];
        let id = obligation_id_text(check.operation@, "idempotency"@, check.requirement as nat);
        lemma_patched_keeps(base, earlier, id, idempotency_verdict_view(check));
        let filled = patched(earlier, id, idempotency_verdict_view(check));
        lemma_find_from_bounds(filled, id, 0);
        if let Option::Some(k) = find_id(filled, id) {
            assert(verdict_shaped(filled[k]));
            lemma_update_keeps(base, filled, k, idempotency_extras(filled[k], check));
        }
    }
}

proof fn lemma_fold_result_replay_keeps(
    base: Seq<ObligationView>,
    obligations: Seq<ObligationView>,
    checks: Seq<ResultReplayCheck>,
    count: nat,
)
    requires
        same_enumeration(obligations, base),
        all_verdict_shaped(obligations),
    ensures
        same_enumeration(fold_result_replay(obligations, checks, count), base),
        all_verdict_shaped(fold_result_replay(obligations, checks, count)),
    decreases count,
{
    if count > 0 && count <= checks.len() {
        lemma_fold_result_replay_keeps(base, obligations, checks, (count - 1) as nat);
        let earlier = fold_result_replay(obligations, checks, (count - 1) as nat);
        let check = checks[count - 1];
        let id = obligation_id_text(check.operation@, "result_replay"@, check.requirement as nat);
        lemma_patched_keeps(base, earlier, id, result_replay_verdict_view(check));
        let filled = patched(earlier, id, result_replay_verdict_view(check));
        lemma_find_from_bounds(filled, id, 0);
        if let Option::Some(k) = find_id(filled, id) {
            assert(verdict_shaped(filled[k]));
            if check.coinductive {
                lemma_update_keeps(
                    base,
                    filled,
                    k,
                    ObligationView {
                        assumptions: seq![coinductive_text("request effects"@)]
                            + filled[k].assumptions,
                        ..filled[k]
                    },
                );
            }
        }
    }
}

proof fn lemma_fold_recoverability_keeps(
    base: Seq<ObligationView>,
    obligations: Seq<ObligationView>,
    checks: Seq<RecoverabilityCheck>,
    count: nat,
)
    requires
        same_enumeration(obligations, base),
        all_verdict_shaped(obligations),
    ensures
        same_enumeration(fold_recoverability(obligations, checks, count), base),
        all_verdict_shaped(fold_recoverability(obligations, checks, count)),
    decreases count,
{
    if count > 0 && count <= checks.len() {
        lemma_fold_recoverability_keeps(base, obligations, checks, (count - 1) as nat);
        let earlier = fold_recoverability(obligations, checks, (count - 1) as nat);
        let check = checks[count - 1];
        let id = obligation_id_text(check.operation@, "recoverability"@, check.requirement as nat);
        lemma_patched_keeps(base, earlier, id, recoverability_verdict_view(check));
        let filled = patched(earlier, id, recoverability_verdict_view(check));
        lemma_find_from_bounds(filled, id, 0);
        if let Option::Some(k) = find_id(filled, id) {
            assert(verdict_shaped(filled[k]));
            lemma_update_keeps(
                base,
                filled,
                k,
                ObligationView {
                    evidence: filled[k].evidence + check.notes@.map_values(
                        |note: RecoverabilityNote|
                            (note_evidence_subject(note), note_evidence_text(note)),
                    ),
                    ..filled[k]
                },
            );
        }
    }
}

/// The obligations of a verification are the scaffold's, filled in:
/// the same obligations in the same order, none disproven, none with a
/// counterexample or a remedy, and every proven one with the scope its
/// proof consumed.
pub proof fn lemma_obligations_fill_the_scaffold(model: Model, verification: VerificationReport)
    ensures
        same_enumeration(
            report_views(model, verification),
            scaffold_views(model.operations@, model.operations@.len()),
        ),
        all_verdict_shaped(report_views(model, verification)),
{
    let scaffolded = scaffold_views(model.operations@, model.operations@.len());
    lemma_scaffold_views_fresh(model.operations@, model.operations@.len());
    assert forall|i: int| 0 <= i < scaffolded.len() implies verdict_shaped(
        #[trigger] scaffolded[i],
    ) by {
        assert(is_fresh(scaffolded[i]));
    }
    lemma_fold_idempotency_keeps(
        scaffolded,
        scaffolded,
        verification.idempotency@,
        verification.idempotency@.len(),
    );
    let idempotent = fold_idempotency(
        scaffolded,
        verification.idempotency@,
        verification.idempotency@.len(),
    );
    lemma_fold_result_replay_keeps(
        scaffolded,
        idempotent,
        verification.result_replay@,
        verification.result_replay@.len(),
    );
    let replayed = fold_result_replay(
        idempotent,
        verification.result_replay@,
        verification.result_replay@.len(),
    );
    lemma_fold_recoverability_keeps(
        scaffolded,
        replayed,
        verification.recoverability@,
        verification.recoverability@.len(),
    );
}


// Every transaction requirement has its obligation.

proof fn lemma_serializability_views_at(operation: Id, transaction: Transaction, count: nat, r: int)
    requires
        0 <= r < count <= transaction.requirements.serializability@.len(),
    ensures
        serializability_views(operation, transaction, count).len() == count,
        serializability_views(operation, transaction, count)[r].id == transaction_obligation_id_text(
            operation@,
            transaction.id@,
            "transaction_serializability"@,
            r as nat,
        ),
        serializability_views(operation, transaction, count)[r].property
            == Property::TransactionSerializability,
    decreases count,
{
    lemma_serializability_length(operation, transaction, count);
    if count > 1 {
        lemma_serializability_length(operation, transaction, (count - 1) as nat);
        if r < count - 1 {
            lemma_serializability_views_at(operation, transaction, (count - 1) as nat, r);
        }
    }
}

proof fn lemma_serializability_length(operation: Id, transaction: Transaction, count: nat)
    requires
        count <= transaction.requirements.serializability@.len(),
    ensures
        serializability_views(operation, transaction, count).len() == count,
    decreases count,
{
    if count > 0 {
        lemma_serializability_length(operation, transaction, (count - 1) as nat);
    }
}

proof fn lemma_ordering_length(operation: Id, transaction: Transaction, count: nat)
    requires
        count <= transaction.requirements.ordering@.len(),
    ensures
        transaction_ordering_views(operation, transaction, count).len() == count,
    decreases count,
{
    if count > 0 {
        lemma_ordering_length(operation, transaction, (count - 1) as nat);
    }
}

proof fn lemma_ordering_views_at(operation: Id, transaction: Transaction, count: nat, r: int)
    requires
        0 <= r < count <= transaction.requirements.ordering@.len(),
    ensures
        transaction_ordering_views(operation, transaction, count)[r].id
            == transaction_obligation_id_text(operation@, transaction.id@, "transaction_ordering"@, r as nat),
        transaction_ordering_views(operation, transaction, count)[r].property
            == Property::TransactionOrdering,
    decreases count,
{
    lemma_ordering_length(operation, transaction, count);
    if count > 1 {
        lemma_ordering_length(operation, transaction, (count - 1) as nat);
        if r < count - 1 {
            lemma_ordering_views_at(operation, transaction, (count - 1) as nat, r);
        }
    }
}

proof fn lemma_transactions_views_contain(
    operation: Id,
    transactions: Seq<Transaction>,
    count: nat,
    m: int,
    o: ObligationView,
)
    requires
        0 <= m < count <= transactions.len(),
        serializability_views(
            operation,
            transactions[m],
            transactions[m].requirements.serializability@.len(),
        ).contains(o) || transaction_ordering_views(
            operation,
            transactions[m],
            transactions[m].requirements.ordering@.len(),
        ).contains(o),
    ensures
        transactions_views(operation, transactions, count).contains(o),
    decreases count,
{
    let transaction = transactions[count - 1];
    let earlier = transactions_views(operation, transactions, (count - 1) as nat);
    let ser = serializability_views(
        operation,
        transaction,
        transaction.requirements.serializability@.len(),
    );
    let ord = transaction_ordering_views(operation, transaction, transaction.requirements.ordering@.len());
    if m < count - 1 {
        lemma_transactions_views_contain(operation, transactions, (count - 1) as nat, m, o);
        crate::model::lemma_contains_concat(earlier, ser, o);
    } else {
        crate::model::lemma_contains_concat(earlier, ser, o);
    }
    crate::model::lemma_contains_concat(earlier + ser, ord, o);
}

proof fn lemma_scaffold_views_contain(operations: Seq<(Id, Operation)>, count: nat, k: int, o: ObligationView)
    requires
        0 <= k < count <= operations.len(),
        operation_views(operations[k].0, operations[k].1).contains(o),
    ensures
        scaffold_views(operations, count).contains(o),
    decreases count,
{
    let earlier = scaffold_views(operations, (count - 1) as nat);
    let here = operation_views(operations[count - 1].0, operations[count - 1].1);
    if k < count - 1 {
        lemma_scaffold_views_contain(operations, (count - 1) as nat, k, o);
    }
    crate::model::lemma_contains_concat(earlier, here, o);
}

/// Every serializability and ordering requirement of every transaction
/// an operation executes, at any depth of its program, has its
/// obligation in the scaffold: one with the requirement's identity and
/// property.
pub proof fn lemma_scaffold_covers_transaction_requirements(
    model: Model,
    k: int,
    execution: TransactionExecution,
    r: int,
)
    requires
        0 <= k < model.operations@.len(),
        program_holds(model.operations@[k].1.program, OperationStep::Transaction(execution)),
        0 <= r,
    ensures
        r < execution.transaction.requirements.serializability@.len() ==> exists|m: int|
            0 <= m < scaffold_views(model.operations@, model.operations@.len()).len() && {
                let o = #[trigger] scaffold_views(model.operations@, model.operations@.len())[m];
                &&& o.id == transaction_obligation_id_text(
                    model.operations@[k].0@,
                    execution.transaction.id@,
                    "transaction_serializability"@,
                    r as nat,
                )
                &&& o.property == Property::TransactionSerializability
            },
        r < execution.transaction.requirements.ordering@.len() ==> exists|m: int|
            0 <= m < scaffold_views(model.operations@, model.operations@.len()).len() && {
                let o = #[trigger] scaffold_views(model.operations@, model.operations@.len())[m];
                &&& o.id == transaction_obligation_id_text(
                    model.operations@[k].0@,
                    execution.transaction.id@,
                    "transaction_ordering"@,
                    r as nat,
                )
                &&& o.property == Property::TransactionOrdering
            },
{
    let (operation_id, operation) = model.operations@[k];
    let transaction = execution.transaction;
    let transactions = block_transactions(operation.program);
    lemma_program_transactions_complete(operation.program, execution);
    let m = choose|m: int| 0 <= m < transactions.len() && transactions[m] == transaction;
    let tv = transactions_views(operation_id, transactions, transactions.len());
    let dv = idempotency_views(
        operation_id,
        operation.requirements.idempotency@,
        operation.requirements.idempotency@.len(),
    );
    let rv = recoverability_views(
        operation_id,
        operation.requirements.recoverability@,
        operation.requirements.recoverability@.len(),
    );
    let all = scaffold_views(model.operations@, model.operations@.len());
    if r < transaction.requirements.serializability@.len() {
        let ser = serializability_views(operation_id, transaction, transaction.requirements.serializability@.len());
        lemma_serializability_views_at(operation_id, transaction, transaction.requirements.serializability@.len(), r);
        let o = ser[r];
        assert(ser.contains(o));
        lemma_transactions_views_contain(operation_id, transactions, transactions.len(), m, o);
        crate::model::lemma_contains_concat(tv, dv, o);
        crate::model::lemma_contains_concat(tv + dv, rv, o);
        lemma_scaffold_views_contain(model.operations@, model.operations@.len(), k, o);
        let j = choose|j: int| 0 <= j < all.len() && all[j] == o;
        assert(all[j] == o);
    }
    if r < transaction.requirements.ordering@.len() {
        let ord = transaction_ordering_views(operation_id, transaction, transaction.requirements.ordering@.len());
        lemma_ordering_length(operation_id, transaction, transaction.requirements.ordering@.len());
        lemma_ordering_views_at(operation_id, transaction, transaction.requirements.ordering@.len(), r);
        let o = ord[r];
        assert(ord.contains(o));
        lemma_transactions_views_contain(operation_id, transactions, transactions.len(), m, o);
        crate::model::lemma_contains_concat(tv, dv, o);
        crate::model::lemma_contains_concat(tv + dv, rv, o);
        lemma_scaffold_views_contain(model.operations@, model.operations@.len(), k, o);
        let j = choose|j: int| 0 <= j < all.len() && all[j] == o;
        assert(all[j] == o);
    }
}

} // verus!
