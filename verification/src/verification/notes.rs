//! Model-wide notes raised next to the verdicts: gaps no declaration
//! asks about and no verdict would otherwise point out.

use vstd::prelude::*;

use crate::diagnostic::{Diagnostic, DiagnosticCode, Severity, VerificationCode};
use crate::model::{
    collapses_duplicates, keyed_from, source_id, DeliverySemantics, Id, Input, Model, Operation,
    StepLocation, ValueRef,
};

verus! {

/// A model-wide observation raised as a warning.
pub enum ModelNote {
    /// A subscription admits duplicate deliveries, and its operation
    /// declares no idempotency requirement keyed from it.
    DuplicateDeliveryUnchecked { operation: Id, input: Id, topic: Id, delivery: DeliverySemantics },
    /// An outbox input, whose intrinsic re-drive admits duplicate
    /// consumption attempts, has no idempotency requirement keyed from
    /// it.
    DuplicateOutboxDeliveryUnchecked { operation: Id, input: Id, outbox: Id },
    /// A `present` condition over a path with no optional segment is
    /// vacuously true.
    RedundantPresenceCheck { operation: Id, location: StepLocation, root: ValueRef },
}

pub open spec fn note_subject(note: ModelNote) -> Option<Id> {
    match note {
        ModelNote::DuplicateDeliveryUnchecked { input, .. }
        | ModelNote::DuplicateOutboxDeliveryUnchecked { input, .. } => Option::Some(input),
        ModelNote::RedundantPresenceCheck { operation, .. } => Option::Some(operation),
    }
}

pub open spec fn admits_text(delivery: DeliverySemantics) -> Seq<char> {
    match delivery {
        DeliverySemantics::AtLeastOnce => "declares at-least-once delivery, so a logical message may invoke it more than once"@,
        _ => "declares no delivery fact, so duplicate invocations cannot be excluded"@,
    }
}

pub open spec fn note_text(note: ModelNote) -> Seq<char> {
    match note {
        ModelNote::DuplicateDeliveryUnchecked { operation, input, topic, delivery } => "`"@
            + input@ + "` of `"@ + operation@ + "` subscribes to `"@ + topic@ + "` and "@
            + admits_text(delivery)
            + "; the operation declares no idempotency requirement keyed from that input, so the work a duplicate delivery repeats is checked by nothing."@,
        ModelNote::DuplicateOutboxDeliveryUnchecked { operation, input, outbox } => "`"@ + input@
            + "` of `"@ + operation@ + "` consumes outbox `"@ + outbox@
            + "`, whose intrinsic durable re-drive admits duplicate and overlapping consumption attempts; the operation declares no idempotency requirement keyed from that input, so the work a repeated attempt performs is checked by nothing."@,
        ModelNote::RedundantPresenceCheck { operation, location, root } => "Program step `"@
            + location.label@ + "` of `"@ + operation@
            + "` tests `present` on a path with no optional segment: the condition is vacuously true. The never-taken arm remains an admitted path \u{2014} conditions never prune paths \u{2014} so delete the dead arm rather than carrying phantom obligations through it. Root: "@
            + source_id(root.source)@ + "."@,
    }
}

pub open spec fn note_code(note: ModelNote) -> VerificationCode {
    match note {
        ModelNote::RedundantPresenceCheck { .. } => VerificationCode::RedundantPresenceCheck,
        _ => VerificationCode::DuplicateDeliveryUnchecked,
    }
}

/// `d` is the warning `note` raises.
pub open spec fn note_diagnostic_is(d: Diagnostic, note: ModelNote) -> bool {
    &&& d.code == DiagnosticCode::Verification(note_code(note))
    &&& d.severity == Severity::Warning
    &&& d.subject == note_subject(note)
    &&& d.message@ == note_text(note)
    &&& d.evidence@.len() == 0
}

impl ModelNote {
    pub fn subject(&self) -> (r: Option<Id>)
        ensures
            r == note_subject(*self),
    {
        match self {
            ModelNote::DuplicateDeliveryUnchecked { input, .. }
            | ModelNote::DuplicateOutboxDeliveryUnchecked { input, .. } => Option::Some(
                input.clone(),
            ),
            ModelNote::RedundantPresenceCheck { operation, .. } => Option::Some(operation.clone()),
        }
    }

    pub fn message(&self) -> (r: String)
        ensures
            r@ == note_text(*self),
    {
        match self {
            ModelNote::DuplicateDeliveryUnchecked { operation, input, topic, delivery } => {
                let mut text = String::from_str("`");
                text.append(input.as_str());
                text.append("` of `");
                text.append(operation.as_str());
                text.append("` subscribes to `");
                text.append(topic.as_str());
                text.append("` and ");
                match delivery {
                    DeliverySemantics::AtLeastOnce => text.append(
                        "declares at-least-once delivery, so a logical message may invoke it more than once",
                    ),
                    _ => text.append(
                        "declares no delivery fact, so duplicate invocations cannot be excluded",
                    ),
                }
                text.append(
                    "; the operation declares no idempotency requirement keyed from that input, so the work a duplicate delivery repeats is checked by nothing.",
                );
                text
            },
            ModelNote::DuplicateOutboxDeliveryUnchecked { operation, input, outbox } => {
                let mut text = String::from_str("`");
                text.append(input.as_str());
                text.append("` of `");
                text.append(operation.as_str());
                text.append("` consumes outbox `");
                text.append(outbox.as_str());
                text.append(
                    "`, whose intrinsic durable re-drive admits duplicate and overlapping consumption attempts; the operation declares no idempotency requirement keyed from that input, so the work a repeated attempt performs is checked by nothing.",
                );
                text
            },
            ModelNote::RedundantPresenceCheck { operation, location, root } => {
                let mut text = String::from_str("Program step `");
                text.append(location.label.as_str());
                text.append("` of `");
                text.append(operation.as_str());
                text.append(
                    "` tests `present` on a path with no optional segment: the condition is vacuously true. The never-taken arm remains an admitted path \u{2014} conditions never prune paths \u{2014} so delete the dead arm rather than carrying phantom obligations through it. Root: ",
                );
                text.append(root.source.id().as_str());
                text.append(".");
                text
            },
        }
    }

    pub fn diagnostic(&self) -> (r: Diagnostic)
        ensures
            note_diagnostic_is(r, *self),
    {
        let code = match self {
            ModelNote::DuplicateDeliveryUnchecked { .. }
            | ModelNote::DuplicateOutboxDeliveryUnchecked { .. } => {
                VerificationCode::DuplicateDeliveryUnchecked
            },
            ModelNote::RedundantPresenceCheck { .. } => VerificationCode::RedundantPresenceCheck,
        };
        Diagnostic {
            code: DiagnosticCode::Verification(code),
            severity: Severity::Warning,
            subject: self.subject(),
            message: self.message(),
            evidence: Vec::new(),
        }
    }
}

/// The note one input of an operation raises, if any: a subscription
/// that admits duplicate deliveries, or any outbox input, with no
/// idempotency requirement keyed from it.
pub open spec fn input_note(operation_id: Id, operation: Operation, input_id: Id, input: Input) -> Option<
    ModelNote,
> {
    match input {
        Input::Subscription { topic, delivery } => if delivery != DeliverySemantics::AtMostOnce
            && !keyed_from(operation, input_id@) {
            Option::Some(
                ModelNote::DuplicateDeliveryUnchecked {
                    operation: operation_id,
                    input: input_id,
                    topic,
                    delivery,
                },
            )
        } else {
            Option::None
        },
        Input::Outbox { outbox } => if !keyed_from(operation, input_id@) {
            Option::Some(
                ModelNote::DuplicateOutboxDeliveryUnchecked {
                    operation: operation_id,
                    input: input_id,
                    outbox,
                },
            )
        } else {
            Option::None
        },
        Input::Request => Option::None,
    }
}

pub open spec fn option_seq(note: Option<ModelNote>) -> Seq<ModelNote> {
    match note {
        Option::Some(note) => seq![note],
        Option::None => Seq::empty(),
    }
}

/// The notes the first inputs of an operation raise, in declaration
/// order.
pub open spec fn inputs_notes(operation_id: Id, operation: Operation, inputs: Seq<(Id, Input)>) -> Seq<
    ModelNote,
>
    decreases inputs.len(),
{
    if inputs.len() == 0 {
        Seq::empty()
    } else {
        inputs_notes(operation_id, operation, inputs.drop_last()) + option_seq(
            input_note(operation_id, operation, inputs.last().0, inputs.last().1),
        )
    }
}

/// The notes the operations raise, in model order.
pub open spec fn operations_notes(operations: Seq<(Id, Operation)>) -> Seq<ModelNote>
    decreases operations.len(),
{
    if operations.len() == 0 {
        Seq::empty()
    } else {
        operations_notes(operations.drop_last()) + inputs_notes(
            operations.last().0,
            operations.last().1,
            operations.last().1.inputs@,
        )
    }
}

/// The model-wide notes: every subscription that admits duplicate
/// deliveries, and every outbox input, without an idempotency
/// requirement keyed from it.
pub fn notes(model: &Model) -> (r: Vec<ModelNote>)
    ensures
        r@ == operations_notes(model.operations@),
{
    let mut out: Vec<ModelNote> = Vec::new();
    let mut i: usize = 0;
    while i < model.operations.len()
        invariant
            i <= model.operations@.len(),
            out@ == operations_notes(model.operations@.take(i as int)),
        decreases model.operations@.len() - i,
    {
        let operation_id = &model.operations[i].0;
        let operation = &model.operations[i].1;
        let ghost base = out@;
        let mut j: usize = 0;
        while j < operation.inputs.len()
            invariant
                j <= operation.inputs@.len(),
                out@ == base + inputs_notes(
                    *operation_id,
                    *operation,
                    operation.inputs@.take(j as int),
                ),
            decreases operation.inputs@.len() - j,
        {
            let input_id = &operation.inputs[j].0;
            proof {
                assert(operation.inputs@.take(j + 1).drop_last() =~= operation.inputs@.take(
                    j as int,
                ));
            }
            match &operation.inputs[j].1 {
                Input::Subscription { topic, delivery } => {
                    if *delivery != DeliverySemantics::AtMostOnce && !collapses_duplicates(
                        operation,
                        input_id,
                    ) {
                        out.push(
                            ModelNote::DuplicateDeliveryUnchecked {
                                operation: operation_id.clone(),
                                input: input_id.clone(),
                                topic: topic.clone(),
                                delivery: *delivery,
                            },
                        );
                    }
                },
                Input::Outbox { outbox } => {
                    if !collapses_duplicates(operation, input_id) {
                        out.push(
                            ModelNote::DuplicateOutboxDeliveryUnchecked {
                                operation: operation_id.clone(),
                                input: input_id.clone(),
                                outbox: outbox.clone(),
                            },
                        );
                    }
                },
                Input::Request => {},
            }
            proof {
                assert(out@ =~= base + inputs_notes(
                    *operation_id,
                    *operation,
                    operation.inputs@.take(j + 1),
                ));
            }
            j += 1;
        }
        proof {
            assert(operation.inputs@.take(operation.inputs@.len() as int) =~= operation.inputs@);
            assert(model.operations@.take(i + 1).drop_last() =~= model.operations@.take(i as int));
        }
        i += 1;
    }
    proof {
        assert(model.operations@.take(model.operations@.len() as int) =~= model.operations@);
    }
    out
}


proof fn lemma_inputs_notes_contain(operation_id: Id, operation: Operation, inputs: Seq<(Id, Input)>, j: int, note: ModelNote)
    requires
        0 <= j < inputs.len(),
        input_note(operation_id, operation, inputs[j].0, inputs[j].1) == Option::Some(note),
    ensures
        inputs_notes(operation_id, operation, inputs).contains(note),
    decreases inputs.len(),
{
    let earlier = inputs_notes(operation_id, operation, inputs.drop_last());
    let here = option_seq(input_note(operation_id, operation, inputs.last().0, inputs.last().1));
    if j < inputs.len() - 1 {
        assert(inputs.drop_last()[j] == inputs[j]);
        lemma_inputs_notes_contain(operation_id, operation, inputs.drop_last(), j, note);
    } else {
        assert(here[0] == note);
    }
    crate::model::lemma_contains_concat(earlier, here, note);
}

proof fn lemma_operations_notes_contain(operations: Seq<(Id, Operation)>, k: int, j: int, note: ModelNote)
    requires
        0 <= k < operations.len(),
        0 <= j < operations[k].1.inputs@.len(),
        input_note(
            operations[k].0,
            operations[k].1,
            operations[k].1.inputs@[j].0,
            operations[k].1.inputs@[j].1,
        ) == Option::Some(note),
    ensures
        operations_notes(operations).contains(note),
    decreases operations.len(),
{
    let earlier = operations_notes(operations.drop_last());
    let here = inputs_notes(operations.last().0, operations.last().1, operations.last().1.inputs@);
    if k < operations.len() - 1 {
        assert(operations.drop_last()[k] == operations[k]);
        lemma_operations_notes_contain(operations.drop_last(), k, j, note);
    } else {
        lemma_inputs_notes_contain(operations[k].0, operations[k].1, operations[k].1.inputs@, j, note);
    }
    crate::model::lemma_contains_concat(earlier, here, note);
}

/// Every subscription that admits duplicate deliveries (its delivery is
/// anything but at-most-once) and from which no idempotency requirement
/// of its operation is keyed raises a note; so does every outbox input
/// with no such requirement.
pub proof fn lemma_unchecked_duplicates_are_noted(model: Model, k: int, j: int)
    requires
        0 <= k < model.operations@.len(),
        0 <= j < model.operations@[k].1.inputs@.len(),
        !keyed_from(model.operations@[k].1, model.operations@[k].1.inputs@[j].0@),
    ensures
        model.operations@[k].1.inputs@[j].1 matches Input::Subscription { topic, delivery }
            ==> delivery != DeliverySemantics::AtMostOnce ==> operations_notes(model.operations@).contains(
            ModelNote::DuplicateDeliveryUnchecked {
                operation: model.operations@[k].0,
                input: model.operations@[k].1.inputs@[j].0,
                topic,
                delivery,
            },
        ),
        model.operations@[k].1.inputs@[j].1 matches Input::Outbox { outbox }
            ==> operations_notes(model.operations@).contains(
            ModelNote::DuplicateOutboxDeliveryUnchecked {
                operation: model.operations@[k].0,
                input: model.operations@[k].1.inputs@[j].0,
                outbox,
            },
        ),
{
    let (operation_id, operation) = model.operations@[k];
    let (input_id, input) = operation.inputs@[j];
    match input {
        Input::Subscription { topic, delivery } => {
            if delivery != DeliverySemantics::AtMostOnce {
                lemma_operations_notes_contain(
                    model.operations@,
                    k,
                    j,
                    ModelNote::DuplicateDeliveryUnchecked { operation: operation_id, input: input_id, topic, delivery },
                );
            }
        },
        Input::Outbox { outbox } => {
            lemma_operations_notes_contain(
                model.operations@,
                k,
                j,
                ModelNote::DuplicateOutboxDeliveryUnchecked { operation: operation_id, input: input_id, outbox },
            );
        },
        _ => {},
    }
}


/// Whether `note` is the note input `j` of operation `k` raises: a
/// duplicate-admitting subscription, or an outbox input, from which no
/// idempotency requirement of the operation is keyed.
pub open spec fn raised_by(operations: Seq<(Id, Operation)>, note: ModelNote) -> bool {
    exists|k: int, j: int|
        0 <= k < operations.len() && 0 <= j < operations[k].1.inputs@.len() && #[trigger] unchecked_input(
            operations[k].0,
            operations[k].1,
            operations[k].1.inputs@[j],
            note,
        )
}

pub open spec fn unchecked_input(operation_id: Id, operation: Operation, input: (Id, Input), note: ModelNote) -> bool {
    &&& !keyed_from(operation, input.0@)
    &&& match input.1 {
        Input::Subscription { topic, delivery } => delivery != DeliverySemantics::AtMostOnce && note
            == ModelNote::DuplicateDeliveryUnchecked {
            operation: operation_id,
            input: input.0,
            topic,
            delivery,
        },
        Input::Outbox { outbox } => note == ModelNote::DuplicateOutboxDeliveryUnchecked {
            operation: operation_id,
            input: input.0,
            outbox,
        },
        Input::Request => false,
    }
}

proof fn lemma_inputs_notes_raised(operation_id: Id, operation: Operation, inputs: Seq<(Id, Input)>, note: ModelNote)
    requires
        inputs_notes(operation_id, operation, inputs).contains(note),
    ensures
        exists|j: int| 0 <= j < inputs.len() && #[trigger] unchecked_input(operation_id, operation, inputs[j], note),
    decreases inputs.len(),
{
    let earlier = inputs_notes(operation_id, operation, inputs.drop_last());
    let here = option_seq(input_note(operation_id, operation, inputs.last().0, inputs.last().1));
    let q = choose|q: int| 0 <= q < (earlier + here).len() && (earlier + here)[q] == note;
    if q < earlier.len() {
        assert(earlier[q] == note);
        lemma_inputs_notes_raised(operation_id, operation, inputs.drop_last(), note);
        let j = choose|j: int| 0 <= j < inputs.drop_last().len() && #[trigger] unchecked_input(
            operation_id,
            operation,
            inputs.drop_last()[j],
            note,
        );
        assert(inputs.drop_last()[j] == inputs[j]);
    } else {
        assert(here[q - earlier.len()] == note);
        assert(unchecked_input(operation_id, operation, inputs[inputs.len() - 1], note));
    }
}

/// Every model-wide note is raised by an input that warrants it: a
/// subscription admitting duplicates, or an outbox input, from which no
/// idempotency requirement of its operation is keyed.
pub proof fn lemma_notes_are_warranted(operations: Seq<(Id, Operation)>, note: ModelNote)
    requires
        operations_notes(operations).contains(note),
    ensures
        raised_by(operations, note),
    decreases operations.len(),
{
    let earlier = operations_notes(operations.drop_last());
    let (id, operation) = operations.last();
    let here = inputs_notes(id, operation, operation.inputs@);
    let q = choose|q: int| 0 <= q < (earlier + here).len() && (earlier + here)[q] == note;
    if q < earlier.len() {
        assert(earlier[q] == note);
        lemma_notes_are_warranted(operations.drop_last(), note);
        let (k, j) = choose|k: int, j: int|
            0 <= k < operations.drop_last().len() && 0 <= j < operations.drop_last()[k].1.inputs@.len()
                && #[trigger] unchecked_input(
                operations.drop_last()[k].0,
                operations.drop_last()[k].1,
                operations.drop_last()[k].1.inputs@[j],
                note,
            );
        assert(operations.drop_last()[k] == operations[k]);
        assert(unchecked_input(operations[k].0, operations[k].1, operations[k].1.inputs@[j], note));
    } else {
        assert(here[q - earlier.len()] == note);
        lemma_inputs_notes_raised(id, operation, operation.inputs@, note);
        let j = choose|j: int| 0 <= j < operation.inputs@.len() && #[trigger] unchecked_input(
            id,
            operation,
            operation.inputs@[j],
            note,
        );
        let k = operations.len() - 1;
        assert(unchecked_input(operations[k].0, operations[k].1, operations[k].1.inputs@[j], note));
    }
}

} // verus!
