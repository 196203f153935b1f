use conseqa::diagnostic::Severity;
use conseqa::model::{
    AsyncJoin, BranchStep, Condition, Derivation, Effect, ExecuteEffectIntentStep,
    ExecuteEffectStep, IdempotencyGuarantee, JoinAllStep, MatchResultStep, Model, Operation,
    OperationBlock, OperationRequirements, OperationStep, RaceStep, ResultOutcome, ReturnStep,
    Transaction, TransactionExecution, TransactionRequirements, TransactionStep, ValueRef,
    ValueSource, FieldPath, ErrorArm,
};
use conseqa::validation::error::{ProgramUse, ValidationError};
use conseqa::validation::programs::{validate_program, validate_programs};
use conseqa::validation::{is_program_local_error, is_program_owned_kind};
use conseqa::validation::reference::ReferenceKind;

fn id(text: &str) -> String {
    text.to_string()
}

fn block(steps: Vec<OperationStep>) -> OperationBlock {
    OperationBlock { steps }
}

fn transaction(name: &str, steps: Vec<TransactionStep>) -> OperationStep {
    OperationStep::Transaction(TransactionExecution {
        transaction: Transaction {
            id: id(name),
            steps,
            idempotency: IdempotencyGuarantee::Unspecified,
            requirements: TransactionRequirements { serializability: vec![], ordering: vec![] },
        },
        rejected: None,
    })
}

fn intent(name: &str, bind: Option<&str>) -> OperationStep {
    OperationStep::ExecuteEffectIntent(ExecuteEffectIntentStep {
        intent: id(name),
        bind: bind.map(id),
    })
}

fn effect(name: &str, bind: Option<&str>, roots: Vec<ValueRef>) -> OperationStep {
    OperationStep::ExecuteEffect(ExecuteEffectStep {
        effect_id: id(name),
        effect: Effect { references: vec![] },
        values: Derivation::Deterministic { roots },
        bind: bind.map(id),
    })
}

fn ok_of(result: &str) -> ValueRef {
    ValueRef { source: ValueSource::EffectResultOk(id(result)), path: FieldPath { text: id("") } }
}

fn ret(request: &str) -> OperationStep {
    OperationStep::Return(ReturnStep {
        request: id(request),
        outcome: ResultOutcome::Success { values: Derivation::Unspecified },
    })
}

#[test]
fn a_completed_program_has_no_findings() {
    let errors = validate_program(&id("op"), &block(vec![OperationStep::Complete]));
    assert!(errors.is_empty());
}

#[test]
fn an_empty_program_is_not_terminated() {
    let errors = validate_program(&id("op"), &block(vec![]));
    assert_eq!(errors.len(), 1);
    match &errors[0] {
        ValidationError::ProgramNotTerminated { operation } => assert_eq!(operation, "op"),
        _ => panic!("expected a program that is not terminated"),
    }
    let diagnostic = errors[0].diagnostic();
    assert_eq!(diagnostic.severity, Severity::Error);
    assert_eq!(diagnostic.subject.as_deref(), Some("op"));
    assert_eq!(
        diagnostic.message,
        "The program of `op` can fall off the end of its last step without reaching a terminal."
    );
    assert_eq!(diagnostic.evidence.len(), 1);
    assert_eq!(
        diagnostic.evidence[0].message,
        "Every reachable path through an operation program must end at an explicit `return` or `complete` step."
    );
}

#[test]
fn a_step_after_a_terminal_is_unreachable_once() {
    let errors = validate_program(
        &id("op"),
        &block(vec![OperationStep::Complete, OperationStep::Complete, OperationStep::Complete]),
    );
    assert_eq!(errors.len(), 1);
    match &errors[0] {
        ValidationError::UnreachableProgramStep { operation, location } => {
            assert_eq!(operation, "op");
            assert_eq!(location.label, "2");
        },
        _ => panic!("expected an unreachable step"),
    }
    assert_eq!(
        errors[0].diagnostic().message,
        "Program step `2` of `op` is unreachable: it follows a terminal in its block."
    );
}

#[test]
fn an_intent_never_established_is_not_available() {
    let errors = validate_program(&id("op"), &block(vec![intent("i", None), OperationStep::Complete]));
    assert_eq!(errors.len(), 1);
    match &errors[0] {
        ValidationError::TransactionArtifactNotAvailable { operation, location, artifact, consumer } => {
            assert_eq!(operation, "op");
            assert_eq!(location.label, "1");
            assert_eq!(artifact, "i");
            assert!(matches!(consumer, ProgramUse::EffectIntent { intent } if intent == "i"));
        },
        _ => panic!("expected an unavailable artifact"),
    }
    assert_eq!(
        errors[0].diagnostic().message,
        "Program step `1` of `op` consumes transaction artifact `i` in the execution of intent `i`, but no transaction on every path reaching that step establishes or recovers it."
    );
}

#[test]
fn an_intent_established_by_an_earlier_transaction_is_available() {
    let program = block(vec![
        transaction(
            "t",
            vec![TransactionStep::EstablishEffectIntent {
                bind: id("i"),
                effect: id("e"),
                values: Derivation::Unspecified,
            }],
        ),
        intent("i", None),
        OperationStep::Complete,
    ]);
    assert!(validate_program(&id("op"), &program).is_empty());
}

#[test]
fn an_artifact_established_on_one_arm_only_is_not_available_after_the_join() {
    let establishing = transaction(
        "t",
        vec![TransactionStep::EstablishEffectIntent {
            bind: id("i"),
            effect: id("e"),
            values: Derivation::Unspecified,
        }],
    );
    let program = block(vec![
        OperationStep::Branch(BranchStep {
            condition: Condition::Unspecified,
            then_block: block(vec![establishing]),
            otherwise: None,
        }),
        intent("i", None),
        OperationStep::Complete,
    ]);
    let errors = validate_program(&id("op"), &program);
    assert_eq!(errors.len(), 1);
    assert!(matches!(
        &errors[0],
        ValidationError::TransactionArtifactNotAvailable { location, artifact, .. }
            if location.label == "2" && artifact == "i"
    ));
}

#[test]
fn a_branch_whose_arms_all_terminate_ends_its_block() {
    let program = block(vec![
        OperationStep::Branch(BranchStep {
            condition: Condition::Unspecified,
            then_block: block(vec![ret("req")]),
            otherwise: Some(block(vec![OperationStep::Complete])),
        }),
        OperationStep::Complete,
    ]);
    let errors = validate_program(&id("op"), &program);
    assert_eq!(errors.len(), 1);
    assert!(matches!(
        &errors[0],
        ValidationError::UnreachableProgramStep { location, .. } if location.label == "2"
    ));
}

#[test]
fn a_branch_without_an_otherwise_arm_falls_through() {
    let program = block(vec![OperationStep::Branch(BranchStep {
        condition: Condition::Unspecified,
        then_block: block(vec![OperationStep::Complete]),
        otherwise: None,
    })]);
    let errors = validate_program(&id("op"), &program);
    assert_eq!(errors.len(), 1);
    assert!(matches!(&errors[0], ValidationError::ProgramNotTerminated { .. }));
}

#[test]
fn a_result_payload_is_scoped_to_its_match_arm() {
    let program = block(vec![
        effect("call", Some("r"), vec![]),
        OperationStep::MatchResult(MatchResultStep {
            result: id("r"),
            ok: block(vec![effect("use", None, vec![ok_of("r")])]),
            errors: vec![ErrorArm { error: id("boom"), block: block(vec![]) }],
        }),
        effect("after", None, vec![ok_of("r")]),
        OperationStep::Complete,
    ]);
    let errors = validate_program(&id("op"), &program);
    assert_eq!(errors.len(), 1);
    match &errors[0] {
        ValidationError::EffectResultVariantOutOfScope { location, result, consumer, .. } => {
            assert_eq!(location.label, "3");
            assert_eq!(result, "r");
            assert!(matches!(consumer, ProgramUse::Effect { effect } if effect == "after"));
        },
        _ => panic!("expected a variant out of scope"),
    }
}

#[test]
fn an_unbound_result_is_reported_once_per_step() {
    let program = block(vec![
        effect("use", None, vec![ok_of("r"), ok_of("r")]),
        OperationStep::Complete,
    ]);
    let errors = validate_program(&id("op"), &program);
    assert_eq!(errors.len(), 1);
    assert!(matches!(
        &errors[0],
        ValidationError::EffectResultNotBound { location, result, .. }
            if location.label == "1" && result == "r"
    ));
}

#[test]
fn synchronization_steps_check_their_handles() {
    let program = block(vec![
        OperationStep::JoinAll(JoinAllStep { handles: vec![] }),
        OperationStep::Race(RaceStep { handles: vec![id("h")], bind: None }),
        OperationStep::JoinAll(JoinAllStep {
            handles: vec![
                AsyncJoin { handle: id("g"), bind: None },
                AsyncJoin { handle: id("g"), bind: None },
            ],
        }),
        OperationStep::Complete,
    ]);
    let errors = validate_program(&id("op"), &program);
    assert_eq!(errors.len(), 5);
    assert!(matches!(&errors[0], ValidationError::EmptyJoinAll { location, .. } if location.label == "1"));
    assert!(matches!(
        &errors[1],
        ValidationError::RaceRequiresTwoHandles { location, count, .. }
            if location.label == "2" && *count == 1
    ));
    assert!(matches!(
        &errors[2],
        ValidationError::AsyncHandleNotAvailable { handle, consumer: ProgramUse::Race, .. } if handle == "h"
    ));
    assert!(matches!(
        &errors[3],
        ValidationError::AsyncHandleNotAvailable { handle, consumer: ProgramUse::JoinAll, .. } if handle == "g"
    ));
    assert!(matches!(
        &errors[4],
        ValidationError::DuplicateSynchronizationHandle { handle, location, .. }
            if handle == "g" && location.label == "3"
    ));
}

#[test]
fn nested_locations_name_the_arm() {
    let program = block(vec![OperationStep::Branch(BranchStep {
        condition: Condition::Unspecified,
        then_block: block(vec![OperationStep::Complete, OperationStep::Complete]),
        otherwise: Some(block(vec![OperationStep::Complete])),
    })]);
    let errors = validate_program(&id("op"), &program);
    assert_eq!(errors.len(), 1);
    assert!(matches!(
        &errors[0],
        ValidationError::UnreachableProgramStep { location, .. } if location.label == "1.then.2"
    ));
}

#[test]
fn every_operation_is_validated_in_model_order() {
    let model = Model {
        revision: 1,
        services: vec![],
        schemas: vec![],
        data_models: vec![],
        topics: vec![],
        runtime: None,
        state_machines: vec![],
        operations: vec![
            (id("a"), Operation {
                inputs: vec![],
                program: block(vec![]),
                requirements: OperationRequirements {
                    idempotency: vec![],
                    recoverability: vec![],
                    ordering: vec![],
                },
            }),
            (id("b"), Operation {
                inputs: vec![],
                program: block(vec![OperationStep::Complete]),
                requirements: OperationRequirements {
                    idempotency: vec![],
                    recoverability: vec![],
                    ordering: vec![],
                },
            }),
            (id("c"), Operation {
                inputs: vec![],
                program: block(vec![effect("e", None, vec![])]),
                requirements: OperationRequirements {
                    idempotency: vec![],
                    recoverability: vec![],
                    ordering: vec![],
                },
            }),
        ],
    };
    let errors = validate_programs(&model);
    assert_eq!(errors.len(), 2);
    assert!(matches!(&errors[0], ValidationError::ProgramNotTerminated { operation } if operation == "a"));
    assert!(matches!(&errors[1], ValidationError::ProgramNotTerminated { operation } if operation == "c"));
}

#[test]
fn program_local_errors_are_those_one_program_determines() {
    assert!(is_program_owned_kind(ReferenceKind::EffectIntent));
    assert!(is_program_owned_kind(ReferenceKind::TransactionRead));
    assert!(!is_program_owned_kind(ReferenceKind::Input));
    assert!(!is_program_owned_kind(ReferenceKind::Topic));
    assert!(is_program_local_error(&ValidationError::ProgramNotTerminated { operation: id("op") }));
    assert!(is_program_local_error(&ValidationError::UnknownReference {
        subject: id("op"),
        reference: id("r"),
        expected: ReferenceKind::EffectResult,
    }));
    assert!(!is_program_local_error(&ValidationError::UnknownReference {
        subject: id("op"),
        reference: id("r"),
        expected: ReferenceKind::Input,
    }));
    assert!(!is_program_local_error(&ValidationError::EmptyJoinAll {
        operation: id("op"),
        location: conseqa::model::StepLocation { label: id("1") },
    }));
}

#[test]
fn a_payload_does_not_survive_the_match_even_when_the_other_arm_terminates() {
    let program = block(vec![
        effect("call", Some("r"), vec![]),
        OperationStep::MatchResult(MatchResultStep {
            result: id("r"),
            ok: block(vec![]),
            errors: vec![ErrorArm { error: id("boom"), block: block(vec![OperationStep::Complete]) }],
        }),
        effect("after", None, vec![ok_of("r")]),
        OperationStep::Complete,
    ]);
    let errors = validate_program(&id("op"), &program);
    assert_eq!(errors.len(), 1);
    assert!(matches!(
        &errors[0],
        ValidationError::EffectResultVariantOutOfScope { location, result, .. }
            if location.label == "3" && result == "r"
    ));
}

#[test]
fn a_nested_match_keeps_the_selection_of_its_enclosing_arm() {
    let program = block(vec![
        effect("call", Some("r"), vec![]),
        OperationStep::MatchResult(MatchResultStep {
            result: id("r"),
            ok: block(vec![
                OperationStep::MatchResult(MatchResultStep {
                    result: id("r"),
                    ok: block(vec![]),
                    errors: vec![],
                }),
                effect("use", None, vec![ok_of("r")]),
            ]),
            errors: vec![ErrorArm { error: id("boom"), block: block(vec![OperationStep::Complete]) }],
        }),
        OperationStep::Complete,
    ]);
    assert!(validate_program(&id("op"), &program).is_empty());
}
