use conseqa::model::{
    Arm, BranchStep, Condition, Derivation, ErrorArm, FieldPath, IdempotencyGuarantee,
    MatchResultStep, OperationBlock, OperationStep, ResultArm, ResultOutcome, ReturnStep,
    StepLocation, Transaction, TransactionExecution, TransactionOutcome, TransactionRequirements,
    ValueRef, ValueSource,
};
use conseqa::text::{join, push_decimal, push_successor};
use conseqa::validation::availability::{join as join_states, Availability, IdSet};
use conseqa::verification::describe::{
    arm_name, capitalized_path, describe_decision, describe_path, describe_value_ref,
    describe_value_source, enclosed, path_label, result_arm_name,
};
use conseqa::verification::paths::{paths, DecisionTaken, PathRef, Terminal};
use conseqa::verification::scope::{ProofScope, RemedyLayer};
use conseqa::verification::replay::{governing_input, GoverningKeyDefect};
use conseqa::model::{IdempotencyKey, Input, Operation, OperationRequirements};
use conseqa::verification::idempotency::idempotency_inert_decisions;

fn id(text: &str) -> String {
    text.to_string()
}

fn location(label: &str) -> StepLocation {
    StepLocation { label: id(label) }
}

fn ret(request: &str) -> OperationStep {
    OperationStep::Return(ReturnStep {
        request: id(request),
        outcome: ResultOutcome::Success { values: Derivation::Unspecified },
    })
}

#[test]
fn decimals_and_joins() {
    let mut text = String::from("n=");
    push_decimal(&mut text, 0);
    assert_eq!(text, "n=0");
    push_decimal(&mut text, 1907);
    assert_eq!(text, "n=01907");
    let mut next = String::new();
    push_successor(&mut next, 9);
    assert_eq!(next, "10");
    assert_eq!(join(&vec![id("a"), id("b"), id("c")], ", "), "a, b, c");
    assert_eq!(join(&vec![], ", "), "");
    assert_eq!(join(&vec![id("only")], " › "), "only");
}

#[test]
fn proof_scopes_join_to_runtime_dependent_when_any_leg_is() {
    assert_eq!(ProofScope::L0Only.join(ProofScope::L0Only), ProofScope::L0Only);
    assert_eq!(ProofScope::L0Only.join(ProofScope::RuntimeDependent), ProofScope::RuntimeDependent);
    assert_eq!(ProofScope::joined(&vec![]), ProofScope::L0Only);
    assert_eq!(
        ProofScope::joined(&vec![ProofScope::L0Only, ProofScope::RuntimeDependent, ProofScope::L0Only]),
        ProofScope::RuntimeDependent
    );
    assert_eq!(ProofScope::RuntimeDependent.text(), "runtime_dependent");
    assert_eq!(ProofScope::L0Only.text(), "l0_only");
}

#[test]
fn remedies_route_to_the_runtime_only_when_every_obstacle_does() {
    assert_eq!(RemedyLayer::joined(&vec![]), None);
    assert_eq!(
        RemedyLayer::joined(&vec![RemedyLayer::Runtime, RemedyLayer::Runtime]),
        Some(RemedyLayer::Runtime)
    );
    assert_eq!(
        RemedyLayer::joined(&vec![RemedyLayer::Runtime, RemedyLayer::Application]),
        Some(RemedyLayer::Application)
    );
    assert_eq!(RemedyLayer::Application.text(), "application");
}

#[test]
fn availability_meets_at_joins() {
    let mut first = Availability::new();
    first.artifacts.insert(id("a"));
    first.artifacts.insert(id("b"));
    first.bound.insert(id("r"));
    let mut second = Availability::new();
    second.artifacts.insert(id("b"));
    second.artifacts.insert(id("c"));
    let met = first.meet(&second);
    assert!(met.artifacts.contains(&id("b")));
    assert!(!met.artifacts.contains(&id("a")));
    assert!(!met.artifacts.contains(&id("c")));
    assert!(!met.bound.contains(&id("r")));

    let joined = join_states(Some(first.copy()), None).unwrap();
    assert!(joined.artifacts.contains(&id("a")));
    assert!(joined.bound.contains(&id("r")));
    assert!(join_states(None, None).is_none());

    let mut set = IdSet::new();
    set.insert(id("x"));
    set.insert(id("x"));
    set.remove(&id("x"));
    assert!(!set.contains(&id("x")));
}

#[test]
fn value_references_as_sentences_name_them() {
    let value = ValueRef {
        source: ValueSource::EffectResultOk(id("pay")),
        path: FieldPath { text: id("receipt") },
    };
    assert_eq!(describe_value_source(&value.source), "the ok payload of effect result `pay`");
    assert_eq!(
        describe_value_ref(&value),
        "the key (`receipt` of the ok payload of effect result `pay`)"
    );
    assert_eq!(enclosed("<", "x", ">"), "<x>");
}

#[test]
fn decisions_and_paths_as_labels() {
    assert_eq!(arm_name(&Arm::Otherwise), "otherwise");
    assert_eq!(arm_name(&Arm::Failure(id("declined"))), "declined");
    assert_eq!(result_arm_name(&ResultArm::Success), "ok");
    let matched = DecisionTaken::Match {
        location: location("2"),
        result: id("payment"),
        arm: ResultArm::Success,
    };
    let branched = DecisionTaken::Branch { location: location("3"), arm: Arm::Then };
    let refused = DecisionTaken::Transaction {
        location: location("1"),
        transaction: id("reserve"),
        outcome: TransactionOutcome::Rejected,
    };
    assert_eq!(
        describe_decision(&matched),
        "the match on `payment` at step `2`, taking its `ok` arm"
    );
    assert_eq!(describe_decision(&branched), "the branch at step `3`, taking its `then` arm");
    let path = PathRef { decisions: vec![matched, branched] };
    assert_eq!(path_label(&path), "ok(payment) › then(step 3)");
    assert_eq!(describe_path(&path), "the path `ok(payment) › then(step 3)`");
    assert_eq!(capitalized_path(&path), "The path `ok(payment) › then(step 3)`");
    let empty = PathRef::empty();
    assert_eq!(describe_path(&empty), "the program");
    assert_eq!(capitalized_path(&empty), "The program");
    assert_eq!(path_label(&PathRef { decisions: vec![refused] }), "rejected(reserve)");
}

#[test]
fn paths_enumerate_every_arm_in_program_order() {
    let program = OperationBlock {
        steps: vec![
            OperationStep::Transaction(TransactionExecution {
                transaction: Transaction {
                    id: id("reserve"),
                    steps: vec![],
                    idempotency: IdempotencyGuarantee::Unspecified,
                    requirements: TransactionRequirements { serializability: vec![], ordering: vec![] },
                },
                rejected: Some(OperationBlock { steps: vec![ret("req")] }),
            }),
            OperationStep::MatchResult(MatchResultStep {
                result: id("pay"),
                ok: OperationBlock { steps: vec![] },
                errors: vec![ErrorArm {
                    error: id("declined"),
                    block: OperationBlock { steps: vec![OperationStep::Complete] },
                }],
            }),
            OperationStep::Branch(BranchStep {
                condition: Condition::Unspecified,
                then_block: OperationBlock { steps: vec![ret("req")] },
                otherwise: None,
            }),
        ],
    };
    let found = paths(&program);
    let labels: Vec<String> = found.iter().map(|p| path_label(&p.reference())).collect();
    assert_eq!(
        labels,
        vec![
            "committed(reserve) › ok(pay) › then(step 3)",
            "committed(reserve) › ok(pay) › otherwise(step 3)",
            "committed(reserve) › declined(pay)",
            "rejected(reserve)",
        ]
    );
    assert!(matches!(found[0].terminal, Terminal::Return { .. }));
    assert!(matches!(found[1].terminal, Terminal::Unterminated));
    assert!(matches!(found[2].terminal, Terminal::Complete { .. }));
    assert!(matches!(found[3].terminal, Terminal::Return { .. }));
    assert!(found[0].admitted_for(&id("req")));
    assert!(!found[0].admitted_for(&id("other")));
    assert!(found[1].admitted_for(&id("other")));
    assert!(found[3].returns_for(&id("req")).is_some());
    assert!(found[3].returns_for(&id("other")).is_none());
}

#[test]
fn inert_decisions_select_no_work_on_any_path() {
    let program = OperationBlock {
        steps: vec![
            OperationStep::Branch(BranchStep {
                condition: Condition::Unspecified,
                then_block: OperationBlock {
                    steps: vec![OperationStep::ExecuteEffectIntent(
                        conseqa::model::ExecuteEffectIntentStep { intent: id("i"), bind: None },
                    )],
                },
                otherwise: None,
            }),
            OperationStep::Branch(BranchStep {
                condition: Condition::Unspecified,
                then_block: OperationBlock { steps: vec![ret("req")] },
                otherwise: Some(OperationBlock { steps: vec![ret("req")] }),
            }),
        ],
    };
    let found = paths(&program);
    assert_eq!(found.len(), 4);
    let all: Vec<&conseqa::verification::paths::Path> = found.iter().collect();
    let inert = idempotency_inert_decisions(&all);
    assert!(inert.contains(&id("2")));
    assert!(!inert.contains(&id("1")));
    let only_last: Vec<&conseqa::verification::paths::Path> = vec![&found[2]];
    assert_eq!(path_label(&found[2].reference()), "otherwise(step 1) › then(step 2)");
    let inert = idempotency_inert_decisions(&only_last);
    assert!(inert.contains(&id("1")));
    assert!(inert.contains(&id("2")));
}

#[test]
fn a_governing_key_names_one_declared_input() {
    let operation = Operation {
        inputs: vec![(id("req"), Input::Request)],
        program: OperationBlock { steps: vec![OperationStep::Complete] },
        requirements: OperationRequirements { idempotency: vec![], recoverability: vec![], ordering: vec![] },
    };
    let input = |name: &str| ValueRef {
        source: ValueSource::Input(id(name)),
        path: FieldPath { text: id("id") },
    };
    let key = IdempotencyKey { components: vec![input("req"), input("req")] };
    assert_eq!(governing_input(&operation, &key).ok(), Some(id("req")));
    let empty = IdempotencyKey { components: vec![] };
    assert!(matches!(governing_input(&operation, &empty), Err(GoverningKeyDefect::Empty)));
    let mixed = IdempotencyKey { components: vec![input("req"), input("other")] };
    assert!(matches!(
        governing_input(&operation, &mixed),
        Err(GoverningKeyDefect::ComponentsFromMultipleInputs { first, second })
            if first == "req" && second == "other"
    ));
    let foreign = IdempotencyKey {
        components: vec![ValueRef {
            source: ValueSource::TransactionOutput(id("out")),
            path: FieldPath { text: id("id") },
        }],
    };
    assert!(matches!(
        governing_input(&operation, &foreign),
        Err(GoverningKeyDefect::ComponentNotFromInput { source: ValueSource::TransactionOutput(out) })
            if out == "out"
    ));
    let undeclared = IdempotencyKey { components: vec![input("other")] };
    assert!(matches!(
        governing_input(&operation, &undeclared),
        Err(GoverningKeyDefect::InputNotDeclared { input }) if input == "other"
    ));
}

#[test]
fn the_first_arm_comes_before_the_second_whichever_terminates_first() {
    let program = OperationBlock {
        steps: vec![
            OperationStep::Branch(BranchStep {
                condition: Condition::Unspecified,
                then_block: OperationBlock { steps: vec![] },
                otherwise: Some(OperationBlock { steps: vec![ret("r")] }),
            }),
            OperationStep::Complete,
        ],
    };
    let found = paths(&program);
    assert_eq!(found.len(), 2);
    assert_eq!(path_label(&found[0].reference()), "then(step 1)");
    assert!(matches!(found[0].terminal, Terminal::Complete { .. }));
    assert_eq!(path_label(&found[1].reference()), "otherwise(step 1)");
    assert!(matches!(found[1].terminal, Terminal::Return { request, .. } if request.as_str() == "r"));
}
