use conseqa::diagnostic::Severity;
use conseqa::model::{
    DataModel, Derivation, IdempotencyGuarantee, Input, Model, Operation, OperationBlock,
    OperationRequirements, OperationStep, Runtime, StateMachine, Transaction, TransactionExecution,
    TransactionRequirements, TransactionStep, TransitionDeclaration,
};
use conseqa::validation::declarations::validate_global_id_uniqueness;
use conseqa::validation::error::ValidationError;
use conseqa::validation::reference::ReferenceKind;

fn id(text: &str) -> String {
    text.to_string()
}

fn operation(program: Vec<OperationStep>) -> Operation {
    Operation {
        inputs: vec![(id("req"), Input::Request)],
        program: OperationBlock { steps: program },
        requirements: OperationRequirements { idempotency: vec![], recoverability: vec![], ordering: vec![] },
    }
}

fn model(operations: Vec<(String, Operation)>) -> Model {
    Model {
        revision: 1,
        services: vec![id("shop")],
        schemas: vec![id("order")],
        data_models: vec![(id("store"), DataModel { objects: vec![id("orders")] })],
        topics: vec![id("placed")],
        runtime: Some(Runtime {
            execution_pools: vec![id("pool")],
            routers: vec![],
            storage_layouts: vec![],
        }),
        state_machines: vec![(
            id("lifecycle"),
            StateMachine {
                states: vec![id("open"), id("closed")],
                transitions: vec![(id("close"), TransitionDeclaration { side_effects: vec![id("notify")] })],
            },
        )],
        operations,
    }
}

fn commit(name: &str, output: &str) -> OperationStep {
    OperationStep::Transaction(TransactionExecution {
        transaction: Transaction {
            id: id(name),
            steps: vec![TransactionStep::EstablishTransactionOutput {
                bind: id(output),
                values: Derivation::Unspecified,
            }],
            idempotency: IdempotencyGuarantee::Unspecified,
            requirements: TransactionRequirements { serializability: vec![], ordering: vec![] },
        },
        rejected: None,
    })
}

#[test]
fn distinct_identifiers_raise_nothing() {
    let m = model(vec![(id("place"), operation(vec![commit("write", "receipt"), OperationStep::Complete]))]);
    assert!(validate_global_id_uniqueness(&m).is_empty());
}

#[test]
fn a_second_declaration_of_an_identifier_cites_the_first() {
    let m = model(vec![
        (id("place"), operation(vec![commit("placed", "receipt"), OperationStep::Complete])),
        (id("cancel"), operation(vec![OperationStep::Complete])),
    ]);
    let errors = validate_global_id_uniqueness(&m);
    // `placed` is a topic and a transaction; `req` is an input of both
    // operations.
    assert_eq!(errors.len(), 2);
    match &errors[0] {
        ValidationError::DuplicateId { id, first, second } => {
            assert_eq!(id, "placed");
            assert_eq!(first.kind, ReferenceKind::Topic);
            assert!(first.owner.is_none());
            assert_eq!(second.kind, ReferenceKind::Transaction);
            assert_eq!(second.owner.as_deref(), Some("place"));
        },
        _ => panic!("expected a duplicate identifier"),
    }
    match &errors[1] {
        ValidationError::DuplicateId { id, first, second } => {
            assert_eq!(id, "req");
            assert_eq!(first.kind, ReferenceKind::Input);
            assert_eq!(first.owner.as_deref(), Some("place"));
            assert_eq!(second.owner.as_deref(), Some("cancel"));
        },
        _ => panic!("expected a duplicate identifier"),
    }
    let diagnostic = errors[0].diagnostic();
    assert_eq!(diagnostic.severity, Severity::Error);
    assert_eq!(diagnostic.subject.as_deref(), Some("placed"));
}

#[test]
fn owned_declarations_share_the_namespace() {
    let mut m = model(vec![]);
    m.schemas.push(id("closed"));
    let errors = validate_global_id_uniqueness(&m);
    assert_eq!(errors.len(), 1);
    assert!(matches!(
        &errors[0],
        ValidationError::DuplicateId { id, first, second }
            if id == "closed" && first.kind == ReferenceKind::Schema
                && second.kind == ReferenceKind::State
                && second.owner.as_deref() == Some("lifecycle")
    ));
}
