use conseqa::diagnostic::{DiagnosticCode, Severity, VerificationCode};
use conseqa::model::{
    CompletionRequirement, DeliverySemantics, Derivation, FieldPath, IdempotencyGuarantee,
    IdempotencyKey, IdempotencyRequirement, Input, Model, Operation, OperationBlock,
    OperationRequirements, OperationStep, RecoverabilityRequirement, ResultReplayRequirement,
    Transaction, TransactionExecution, TransactionOrderingRequirement, TransactionRequirements,
    SerializabilityRequirement, ValueRef, ValueSource,
};
use conseqa::report::{
    coinductive_note, obligation_id, property_slug, scaffold, transaction_obligation_id,
    value_ref_label, Property, Status, Subject, FORMAT,
};
use conseqa::verification::notes::{notes, ModelNote};
use conseqa::verification::VerificationReport;

fn id(text: &str) -> String {
    text.to_string()
}

fn input_ref(input: &str, path: &str) -> ValueRef {
    ValueRef { source: ValueSource::Input(id(input)), path: FieldPath { text: id(path) } }
}

fn no_requirements() -> OperationRequirements {
    OperationRequirements { idempotency: vec![], recoverability: vec![], ordering: vec![] }
}

fn keyed_by(input: &str) -> IdempotencyRequirement {
    IdempotencyRequirement {
        key: IdempotencyKey { components: vec![input_ref(input, "id")] },
        result: ResultReplayRequirement::ReplayConsistent,
    }
}

#[test]
fn slugs_and_identities_follow_the_report_format() {
    assert_eq!(property_slug(&Property::Idempotency), "idempotency");
    assert_eq!(property_slug(&Property::ResultReplay), "result_replay");
    assert_eq!(property_slug(&Property::TransactionOrdering), "transaction_ordering");
    assert_eq!(property_slug(&Property::Custom { name: id("latency") }), "latency");
    assert_eq!(obligation_id(&id("place"), "idempotency", 12), "oblig.place.idempotency.12");
    assert_eq!(
        transaction_obligation_id(&id("place"), &id("commit"), "transaction_ordering", 0),
        "oblig.place.commit.transaction_ordering.0"
    );
    assert_eq!(value_ref_label(&input_ref("req", "order.id")), "req.order.id");
    assert!(coinductive_note("`b`").starts_with(
        "proven coinductively: this requirement and the ones it reaches through `b` each rest"
    ));
}

#[test]
fn the_scaffold_lists_every_obligation_as_unknown() {
    let commit = Transaction {
        id: id("commit"),
        steps: vec![],
        idempotency: IdempotencyGuarantee::Unspecified,
        requirements: TransactionRequirements {
            serializability: vec![SerializabilityRequirement { key: input_ref("req", "key") }],
            ordering: vec![TransactionOrderingRequirement {
                key: input_ref("req", "key"),
                position: input_ref("req", "seq"),
            }],
        },
    };
    let model = Model {
        revision: 9,
        services: vec![],
        schemas: vec![],
        data_models: vec![],
        topics: vec![],
        runtime: None,
        state_machines: vec![],
        operations: vec![(id("place"), Operation {
            inputs: vec![(id("req"), Input::Request)],
            program: OperationBlock {
                steps: vec![
                    OperationStep::Transaction(TransactionExecution {
                        transaction: commit,
                        rejected: None,
                    }),
                    OperationStep::Complete,
                ],
            },
            requirements: OperationRequirements {
                idempotency: vec![keyed_by("req")],
                recoverability: vec![RecoverabilityRequirement {
                    key: IdempotencyKey { components: vec![input_ref("req", "id")] },
                    completion: CompletionRequirement::Resumable,
                }],
                ordering: vec![],
            },
        })],
    };
    let report = scaffold(&model);
    assert_eq!(report.format, FORMAT);
    assert_eq!(report.model_revision, Some(9));
    assert!(report.notes.is_empty());
    let ids: Vec<&str> = report.obligations.iter().map(|o| o.id.as_str()).collect();
    assert_eq!(
        ids,
        vec![
            "oblig.place.commit.transaction_serializability.0",
            "oblig.place.commit.transaction_ordering.0",
            "oblig.place.idempotency.0",
            "oblig.place.result_replay.0",
            "oblig.place.recoverability.0",
        ]
    );
    assert!(report.obligations.iter().all(|o| o.status == Status::Unknown));
    assert!(report.obligations.iter().all(|o| o.scope.is_none() && o.remedy.is_none()));
    assert_eq!(
        report.obligations[0].summary,
        "Executions of commit sharing key req.key commit in a history equivalent to some serial order, together with every transaction they may conflict with."
    );
    assert_eq!(
        report.obligations[1].summary,
        "Executions of commit sharing key req.key take effect in the order of req.seq."
    );
    assert_eq!(
        report.obligations[2].summary,
        "Repeated attempts at place sharing the declared key produce the effects of a single invocation."
    );
    assert_eq!(
        report.obligations[3].summary,
        "Every attempt at place sharing the declared key returns an equivalent result."
    );
    assert_eq!(
        report.obligations[4].summary,
        "An interrupted invocation of place can be resumed to reach a terminal of its program."
    );
    match &report.obligations[2].subject {
        Subject::Operation { operation, requirement } => {
            assert_eq!(operation, "place");
            assert_eq!(*requirement, Some(0));
        },
        _ => panic!("expected an operation subject"),
    }
    match &report.obligations[0].subject {
        Subject::Transaction { operation, transaction, requirement } => {
            assert_eq!(operation, "place");
            assert_eq!(transaction, "commit");
            assert_eq!(*requirement, Some(0));
        },
        _ => panic!("expected a transaction subject"),
    }
}

fn subscriber(requirements: OperationRequirements, delivery: DeliverySemantics) -> Operation {
    Operation {
        inputs: vec![(id("sub"), Input::Subscription { topic: id("orders"), delivery })],
        program: OperationBlock { steps: vec![OperationStep::Complete] },
        requirements,
    }
}

#[test]
fn duplicate_deliveries_without_a_keyed_requirement_raise_a_note() {
    let model = Model {
        revision: 1,
        services: vec![],
        schemas: vec![],
        data_models: vec![],
        topics: vec![],
        runtime: None,
        state_machines: vec![],
        operations: vec![
            (id("unchecked"), subscriber(no_requirements(), DeliverySemantics::AtLeastOnce)),
            (
                id("checked"),
                subscriber(
                    OperationRequirements {
                        idempotency: vec![keyed_by("sub")],
                        recoverability: vec![],
                        ordering: vec![],
                    },
                    DeliverySemantics::AtLeastOnce,
                ),
            ),
            (id("single"), subscriber(no_requirements(), DeliverySemantics::AtMostOnce)),
            (
                id("relay"),
                Operation {
                    inputs: vec![(id("box"), Input::Outbox { outbox: id("out") })],
                    program: OperationBlock { steps: vec![OperationStep::Complete] },
                    requirements: no_requirements(),
                },
            ),
        ],
    };
    let found = notes(&model);
    assert_eq!(found.len(), 2);
    assert!(matches!(
        &found[0],
        ModelNote::DuplicateDeliveryUnchecked { operation, input, topic, .. }
            if operation == "unchecked" && input == "sub" && topic == "orders"
    ));
    assert!(matches!(
        &found[1],
        ModelNote::DuplicateOutboxDeliveryUnchecked { operation, input, outbox }
            if operation == "relay" && input == "box" && outbox == "out"
    ));
    let first = found[0].diagnostic();
    assert_eq!(first.severity, Severity::Warning);
    assert_eq!(
        first.code,
        DiagnosticCode::Verification(VerificationCode::DuplicateDeliveryUnchecked)
    );
    assert_eq!(first.subject.as_deref(), Some("sub"));
    assert_eq!(
        first.message,
        "`sub` of `unchecked` subscribes to `orders` and declares at-least-once delivery, so a logical message may invoke it more than once; the operation declares no idempotency requirement keyed from that input, so the work a duplicate delivery repeats is checked by nothing."
    );
    assert!(first.evidence.is_empty());

    let report = VerificationReport {
        ordering: vec![],
        idempotency: vec![],
        result_replay: vec![],
        recoverability: vec![],
        notes: found,
    };
    assert!(report.all_proven());
    let diagnostics = report.diagnostics();
    assert_eq!(diagnostics.len(), 2);
    assert!(diagnostics.iter().all(|d| d.severity == Severity::Warning && !d.is_error()));
}

#[test]
fn an_empty_report_is_all_proven_and_silent() {
    let report = VerificationReport {
        ordering: vec![],
        idempotency: vec![],
        result_replay: vec![],
        recoverability: vec![],
        notes: vec![],
    };
    assert!(report.all_proven());
    assert!(report.diagnostics().is_empty());
}

#[test]
fn a_derivation_without_roots_is_unspecified() {
    let unspecified = Derivation::Unspecified;
    assert!(unspecified.roots().is_empty());
}
