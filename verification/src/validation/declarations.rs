//! The declarations of a model in one global namespace, and the
//! uniqueness of their identifiers.
//!
//! Every identifier is declared once: top-level declarations, those a
//! declaration owns, and the inline declarations an operation program
//! makes at its sites. Inline declarations are taken at their program
//! sites, so any two sites declaring one identifier collide.

use vstd::prelude::*;

use crate::model::{
    arms_hold, lemma_contains_concat, program_holds, result_binding, step_holds, steps_hold,
    DataModel, ErrorArm, Id, Model, Operation, OperationBlock, OperationStep, Runtime,
    StateMachine, TransactionStep, TransitionDeclaration,
};

use super::error::{IdDeclaration, ValidationError};
use super::reference::ReferenceKind;

verus! {

/// One declaration: the identifier, the kind of thing declared, and the
/// declaration that owns it, if any.
pub type Declared = (Id, ReferenceKind, Option<Id>);

pub open spec fn declared_ids(ids: Seq<Id>, kind: ReferenceKind, owner: Option<Id>) -> Seq<Declared> {
    ids.map_values(|id: Id| (id, kind, owner))
}

/// The data models in turn, each followed by its objects.
pub open spec fn data_model_declarations(models: Seq<(Id, DataModel)>) -> Seq<Declared>
    decreases models.len(),
{
    if models.len() == 0 {
        Seq::empty()
    } else {
        let (id, model) = models.last();
        data_model_declarations(models.drop_last()) + seq![(id, ReferenceKind::DataModel, Option::None)]
            + declared_ids(model.objects@, ReferenceKind::DataObject, Option::Some(id))
    }
}

/// The execution pools, routers and storage layouts of the runtime.
pub open spec fn runtime_declarations(runtime: Option<Runtime>) -> Seq<Declared> {
    match runtime {
        Option::Some(runtime) => declared_ids(
            runtime.execution_pools@,
            ReferenceKind::ExecutionPool,
            Option::None,
        ) + declared_ids(runtime.routers@, ReferenceKind::Router, Option::None) + declared_ids(
            runtime.storage_layouts@,
            ReferenceKind::StorageLayout,
            Option::None,
        ),
        Option::None => Seq::empty(),
    }
}

/// The transitions of `machine` in turn, each followed by its side
/// effects.
pub open spec fn transition_declarations(machine: Id, transitions: Seq<(Id, TransitionDeclaration)>) -> Seq<
    Declared,
>
    decreases transitions.len(),
{
    if transitions.len() == 0 {
        Seq::empty()
    } else {
        let (id, transition) = transitions.last();
        transition_declarations(machine, transitions.drop_last()) + seq![
            (id, ReferenceKind::Transition, Option::Some(machine)),
        ] + declared_ids(transition.side_effects@, ReferenceKind::Effect, Option::Some(id))
    }
}

/// The state machines in turn, each followed by its states and its
/// transitions.
pub open spec fn machine_declarations(machines: Seq<(Id, StateMachine)>) -> Seq<Declared>
    decreases machines.len(),
{
    if machines.len() == 0 {
        Seq::empty()
    } else {
        let (id, machine) = machines.last();
        machine_declarations(machines.drop_last()) + seq![(id, ReferenceKind::StateMachine, Option::None)]
            + declared_ids(machine.states@, ReferenceKind::State, Option::Some(id))
            + transition_declarations(id, machine.transitions@)
    }
}

/// What one step of a transaction body declares.
pub open spec fn transaction_step_declarations(operation: Id, transaction: Id, step: TransactionStep) -> Seq<
    Declared,
> {
    match step {
        TransactionStep::Read { bind, .. } => seq![
            (bind, ReferenceKind::TransactionRead, Option::Some(transaction)),
        ],
        TransactionStep::EstablishEffectIntent { bind, effect, .. } => seq![
            (effect, ReferenceKind::Effect, Option::Some(operation)),
            (bind, ReferenceKind::EffectIntent, Option::Some(operation)),
        ],
        TransactionStep::EstablishTransactionOutput { bind, .. } => seq![
            (bind, ReferenceKind::TransactionOutput, Option::Some(operation)),
        ],
        TransactionStep::Transition { intents, .. } => declared_ids(
            intents@,
            ReferenceKind::EffectIntent,
            Option::Some(operation),
        ),
        _ => Seq::empty(),
    }
}

/// What the first `count` steps of a transaction body declare.
pub open spec fn transaction_body_declarations(
    operation: Id,
    transaction: Id,
    steps: Seq<TransactionStep>,
    count: nat,
) -> Seq<Declared>
    decreases count,
{
    if count == 0 || count > steps.len() {
        Seq::empty()
    } else {
        transaction_body_declarations(operation, transaction, steps, (count - 1) as nat)
            + transaction_step_declarations(operation, transaction, steps[count - 1])
    }
}

pub open spec fn binding_declaration(operation: Id, bind: Option<Id>) -> Seq<Declared> {
    match bind {
        Option::Some(bind) => seq![(bind, ReferenceKind::EffectResult, Option::Some(operation))],
        Option::None => Seq::empty(),
    }
}

/// What a program step declares at its site, followed by what the
/// steps of the blocks it holds declare, in program order.
pub open spec fn step_declarations(operation: Id, step: OperationStep) -> Seq<Declared>
    decreases step, 0nat, 0nat,
{
    match step {
        OperationStep::Transaction(execute) => {
            let transaction = execute.transaction;
            seq![(transaction.id, ReferenceKind::Transaction, Option::Some(operation))]
                + transaction_body_declarations(
                operation,
                transaction.id,
                transaction.steps@,
                transaction.steps@.len(),
            ) + match execute.rejected {
                Option::Some(block) => block_declarations(operation, block.steps@, block.steps@.len()),
                Option::None => Seq::empty(),
            }
        },
        OperationStep::ExecuteEffect(s) => seq![
            (s.effect_id, ReferenceKind::Effect, Option::Some(operation)),
        ] + binding_declaration(operation, s.bind),
        OperationStep::ExecuteEffectIntent(s) => binding_declaration(operation, s.bind),
        OperationStep::MatchResult(s) => block_declarations(operation, s.ok.steps@, s.ok.steps@.len())
            + arms_declarations(operation, s.errors@, s.errors@.len()),
        OperationStep::Branch(s) => block_declarations(
            operation,
            s.then_block.steps@,
            s.then_block.steps@.len(),
        ) + match s.otherwise {
            Option::Some(block) => block_declarations(operation, block.steps@, block.steps@.len()),
            Option::None => Seq::empty(),
        },
        _ => Seq::empty(),
    }
}

/// What the first `count` steps of a block declare.
pub open spec fn block_declarations(operation: Id, steps: Seq<OperationStep>, count: nat) -> Seq<Declared>
    decreases steps, 1nat, count,
{
    if count == 0 || count > steps.len() {
        Seq::empty()
    } else {
        block_declarations(operation, steps, (count - 1) as nat) + step_declarations(
            operation,
            steps[count - 1],
        )
    }
}

/// What the blocks of the first `count` error arms of a match declare.
pub open spec fn arms_declarations(operation: Id, arms: Seq<ErrorArm>, count: nat) -> Seq<Declared>
    decreases arms, 1nat, count,
{
    if count == 0 || count > arms.len() {
        Seq::empty()
    } else {
        let arm = arms[count - 1];
        arms_declarations(operation, arms, (count - 1) as nat) + block_declarations(
            operation,
            arm.block.steps@,
            arm.block.steps@.len(),
        )
    }
}

/// The operations in turn: each, its inputs, then the inline
/// declarations of its program.
pub open spec fn operation_declarations(operations: Seq<(Id, Operation)>) -> Seq<Declared>
    decreases operations.len(),
{
    if operations.len() == 0 {
        Seq::empty()
    } else {
        let (id, operation) = operations.last();
        operation_declarations(operations.drop_last()) + seq![(id, ReferenceKind::Operation, Option::None)]
            + operation.inputs@.map_values(
            |input: (Id, crate::model::Input)| (input.0, ReferenceKind::Input, Option::Some(id)),
        ) + block_declarations(id, operation.program.steps@, operation.program.steps@.len())
    }
}

/// Every declaration of the model, in the order it is visited:
/// services, schemas, data models, topics, the runtime, state machines,
/// then operations.
pub open spec fn model_declarations(model: Model) -> Seq<Declared> {
    declared_ids(model.services@, ReferenceKind::Service, Option::None) + declared_ids(
        model.schemas@,
        ReferenceKind::Schema,
        Option::None,
    ) + data_model_declarations(model.data_models@) + declared_ids(
        model.topics@,
        ReferenceKind::Topic,
        Option::None,
    ) + runtime_declarations(model.runtime) + machine_declarations(model.state_machines@)
        + operation_declarations(model.operations@)
}

/// The first of the first `count` declarations that declares `id`.
pub open spec fn first_declared(declarations: Seq<Declared>, id: Seq<char>, count: int) -> Option<int>
    decreases count,
{
    if count <= 0 || count > declarations.len() {
        Option::None
    } else {
        match first_declared(declarations, id, count - 1) {
            Option::Some(j) => Option::Some(j),
            Option::None => if declarations[count - 1].0@ == id {
                Option::Some(count - 1)
            } else {
                Option::None
            },
        }
    }
}

pub open spec fn as_declaration(declared: Declared) -> IdDeclaration {
    IdDeclaration { kind: declared.1, owner: declared.2 }
}

/// One error for each of the first `count` declarations whose
/// identifier an earlier declaration already took, citing that first
/// declaration.
pub open spec fn duplicate_errors(declarations: Seq<Declared>, count: nat) -> Seq<ValidationError>
    decreases count,
{
    if count == 0 || count > declarations.len() {
        Seq::empty()
    } else {
        let earlier = duplicate_errors(declarations, (count - 1) as nat);
        let here = declarations[count - 1];
        match first_declared(declarations, here.0@, count - 1) {
            Option::Some(j) => earlier.push(
                ValidationError::DuplicateId {
                    id: here.0,
                    first: as_declaration(declarations[j]),
                    second: as_declaration(here),
                },
            ),
            Option::None => earlier,
        }
    }
}

/// No two declarations of the model share an identifier.
pub open spec fn ids_unique(model: Model) -> bool {
    let declarations = model_declarations(model);
    forall|j: int, k: int|
        0 <= j < k < declarations.len() ==> #[trigger] declarations[j].0@ != #[trigger] declarations[k].0@
}

proof fn lemma_first_declared_none(declarations: Seq<Declared>, id: Seq<char>, count: int)
    requires
        0 <= count <= declarations.len(),
    ensures
        (first_declared(declarations, id, count) is None) <==> forall|j: int|
            0 <= j < count ==> #[trigger] declarations[j].0@ != id,
    decreases count,
{
    if count > 0 {
        lemma_first_declared_none(declarations, id, count - 1);
        if first_declared(declarations, id, count - 1) is Some {
            let j = choose|j: int| 0 <= j < count - 1 && #[trigger] declarations[j].0@ == id;
            assert(declarations[j].0@ == id);
        }
    }
}

proof fn lemma_first_declared_is(declarations: Seq<Declared>, id: Seq<char>, count: int, j: int)
    requires
        0 <= j < count <= declarations.len(),
        declarations[j].0@ == id,
        forall|m: int| 0 <= m < j ==> #[trigger] declarations[m].0@ != id,
    ensures
        first_declared(declarations, id, count) == Option::Some(j),
    decreases count,
{
    if count - 1 > j {
        lemma_first_declared_is(declarations, id, count - 1, j);
    } else {
        lemma_first_declared_none(declarations, id, j);
    }
}

proof fn lemma_no_duplicates(declarations: Seq<Declared>, count: nat)
    requires
        count <= declarations.len(),
    ensures
        (duplicate_errors(declarations, count).len() == 0) <==> forall|j: int, k: int|
            0 <= j < k < count ==> #[trigger] declarations[j].0@ != #[trigger] declarations[k].0@,
    decreases count,
{
    if count > 0 {
        lemma_no_duplicates(declarations, (count - 1) as nat);
        let here = declarations[count - 1];
        lemma_first_declared_none(declarations, here.0@, count - 1);
        if duplicate_errors(declarations, count).len() == 0 {
            assert forall|j: int, k: int|
                0 <= j < k < count implies #[trigger] declarations[j].0@ != #[trigger] declarations[k].0@ by {
                if k == count - 1 {
                    assert(declarations[j].0@ != here.0@);
                }
            }
        }
        if first_declared(declarations, here.0@, count - 1) is Some {
            let j = choose|j: int| 0 <= j < count - 1 && #[trigger] declarations[j].0@ == here.0@;
            assert(declarations[j].0@ == declarations[count - 1].0@);
        }
    }
}

fn copy_owner(owner: &Option<Id>) -> (r: Option<Id>)
    ensures
        r == *owner,
{
    match owner {
        Option::Some(id) => Option::Some(id.clone()),
        Option::None => Option::None,
    }
}

fn push_declared(out: &mut Vec<Declared>, id: &Id, kind: ReferenceKind, owner: &Option<Id>)
    ensures
        final(out)@ == old(out)@.push((*id, kind, *owner)),
{
    out.push((id.clone(), kind, copy_owner(owner)));
}

fn push_ids(out: &mut Vec<Declared>, ids: &Vec<Id>, kind: ReferenceKind, owner: &Option<Id>)
    ensures
        final(out)@ == old(out)@ + declared_ids(ids@, kind, *owner),
{
    let ghost start = out@;
    let mut i: usize = 0;
    while i < ids.len()
        invariant
            i <= ids@.len(),
            out@ == start + declared_ids(ids@.take(i as int), kind, *owner),
        decreases ids@.len() - i,
    {
        push_declared(out, &ids[i], kind, owner);
        proof {
            assert(declared_ids(ids@.take(i + 1), kind, *owner) =~= declared_ids(
                ids@.take(i as int),
                kind,
                *owner,
            ).push((ids@[i as int], kind, *owner)));
        }
        i += 1;
    }
    proof {
        assert(ids@.take(ids@.len() as int) =~= ids@);
    }
}

fn push_bind(out: &mut Vec<Declared>, operation: &Id, bind: &Option<Id>)
    ensures
        final(out)@ == old(out)@ + binding_declaration(*operation, *bind),
{
    match bind {
        Option::Some(bind) => {
            push_declared(out, bind, ReferenceKind::EffectResult, &Option::Some(operation.clone()));
        },
        Option::None => {
            assert(old(out)@ + Seq::empty() =~= old(out)@);
        },
    }
}

fn push_transaction_body(out: &mut Vec<Declared>, operation: &Id, transaction: &Id, steps: &Vec<TransactionStep>)
    ensures
        final(out)@ == old(out)@ + transaction_body_declarations(
            *operation,
            *transaction,
            steps@,
            steps@.len(),
        ),
{
    let ghost start = out@;
    let mut i: usize = 0;
    proof {
        assert(start + Seq::empty() =~= start);
    }
    while i < steps.len()
        invariant
            i <= steps@.len(),
            out@ == start + transaction_body_declarations(*operation, *transaction, steps@, i as nat),
        decreases steps@.len() - i,
    {
        let ghost before = out@;
        match &steps[i] {
            TransactionStep::Read { bind, .. } => {
                push_declared(out, bind, ReferenceKind::TransactionRead, &Option::Some(transaction.clone()));
            },
            TransactionStep::EstablishEffectIntent { bind, effect, .. } => {
                push_declared(out, effect, ReferenceKind::Effect, &Option::Some(operation.clone()));
                push_declared(out, bind, ReferenceKind::EffectIntent, &Option::Some(operation.clone()));
            },
            TransactionStep::EstablishTransactionOutput { bind, .. } => {
                push_declared(
                    out,
                    bind,
                    ReferenceKind::TransactionOutput,
                    &Option::Some(operation.clone()),
                );
            },
            TransactionStep::Transition { intents, .. } => {
                push_ids(out, intents, ReferenceKind::EffectIntent, &Option::Some(operation.clone()));
            },
            _ => {},
        }
        proof {
            assert(out@ =~= before + transaction_step_declarations(
                *operation,
                *transaction,
                steps@[i as int],
            ));
        }
        i += 1;
    }
}

fn push_step(out: &mut Vec<Declared>, operation: &Id, step: &OperationStep)
    ensures
        final(out)@ == old(out)@ + step_declarations(*operation, *step),
    decreases *step, 0nat, 0nat,
{
    let ghost start = out@;
    match step {
        OperationStep::Transaction(execute) => {
            let transaction = &execute.transaction;
            push_declared(out, &transaction.id, ReferenceKind::Transaction, &Option::Some(operation.clone()));
            push_transaction_body(out, operation, &transaction.id, &transaction.steps);
            match &execute.rejected {
                Option::Some(block) => {
                    proof {
                        assert(decreases_to!(*step => (*step)->Transaction_0));
                        assert(decreases_to!(*execute => execute.rejected));
                        assert(decreases_to!(execute.rejected => *block));
                        assert(decreases_to!(*block => block.steps));
                    }
                    push_block(out, operation, &block.steps);
                },
                Option::None => {},
            }
            proof {
                assert(out@ =~= start + step_declarations(*operation, *step));
            }
        },
        OperationStep::ExecuteEffect(s) => {
            push_declared(out, &s.effect_id, ReferenceKind::Effect, &Option::Some(operation.clone()));
            push_bind(out, operation, &s.bind);
            proof {
                assert(out@ =~= start + step_declarations(*operation, *step));
            }
        },
        OperationStep::ExecuteEffectIntent(s) => {
            push_bind(out, operation, &s.bind);
        },
        OperationStep::MatchResult(s) => {
            proof {
                assert(decreases_to!(*step => (*step)->MatchResult_0));
                assert(decreases_to!(*s => s.ok));
                assert(decreases_to!(s.ok => s.ok.steps));
            }
            push_block(out, operation, &s.ok.steps);
            let ghost after_ok = out@;
            let mut i: usize = 0;
            proof {
                assert(after_ok + arms_declarations(*operation, s.errors@, 0) =~= after_ok);
            }
            while i < s.errors.len()
                invariant
                    i <= s.errors@.len(),
                    *step == OperationStep::MatchResult(*s),
                    out@ == after_ok + arms_declarations(*operation, s.errors@, i as nat),
                decreases s.errors@.len() - i,
            {
                let arm = &s.errors[i];
                proof {
                    assert(decreases_to!(*step => (*step)->MatchResult_0));
                    assert(decreases_to!(*s => s.errors));
                    assert(decreases_to!(s.errors => s.errors@));
                    assert(decreases_to!(s.errors@ => *arm));
                    assert(decreases_to!(*arm => arm.block));
                    assert(decreases_to!(arm.block => arm.block.steps));
                }
                let ghost before = out@;
                push_block(out, operation, &arm.block.steps);
                proof {
                    assert(out@ =~= after_ok + arms_declarations(*operation, s.errors@, (i + 1) as nat));
                }
                i += 1;
            }
            proof {
                assert(out@ =~= start + step_declarations(*operation, *step));
            }
        },
        OperationStep::Branch(s) => {
            proof {
                assert(decreases_to!(*step => (*step)->Branch_0));
                assert(decreases_to!(*s => s.then_block));
                assert(decreases_to!(s.then_block => s.then_block.steps));
            }
            push_block(out, operation, &s.then_block.steps);
            match &s.otherwise {
                Option::Some(block) => {
                    proof {
                        assert(decreases_to!(*step => (*step)->Branch_0));
                        assert(decreases_to!(*s => s.otherwise));
                        assert(decreases_to!(s.otherwise => *block));
                        assert(decreases_to!(*block => block.steps));
                    }
                    push_block(out, operation, &block.steps);
                },
                Option::None => {},
            }
            proof {
                assert(out@ =~= start + step_declarations(*operation, *step));
            }
        },
        _ => {
            proof {
                assert(out@ =~= start + step_declarations(*operation, *step));
            }
        },
    }
}

fn push_block(out: &mut Vec<Declared>, operation: &Id, steps: &Vec<OperationStep>)
    ensures
        final(out)@ == old(out)@ + block_declarations(*operation, steps@, steps@.len()),
    decreases steps@, 1nat, 0nat,
{
    let ghost start = out@;
    let mut i: usize = 0;
    proof {
        assert(start + Seq::empty() =~= start);
    }
    while i < steps.len()
        invariant
            i <= steps@.len(),
            out@ == start + block_declarations(*operation, steps@, i as nat),
        decreases steps@.len() - i,
    {
        proof {
            assert(decreases_to!(steps@ => steps@[i as int]));
        }
        push_step(out, operation, &steps[i]);
        proof {
            assert(out@ =~= start + block_declarations(*operation, steps@, (i + 1) as nat));
        }
        i += 1;
    }
}

/// Every declaration of the model, in the order it is visited.
fn declarations(model: &Model) -> (r: Vec<Declared>)
    ensures
        r@ == model_declarations(*model),
{
    let mut out: Vec<Declared> = Vec::new();
    push_ids(&mut out, &model.services, ReferenceKind::Service, &Option::None);
    push_ids(&mut out, &model.schemas, ReferenceKind::Schema, &Option::None);
    let ghost before_models = out@;
    let mut i: usize = 0;
    while i < model.data_models.len()
        invariant
            i <= model.data_models@.len(),
            out@ == before_models + data_model_declarations(model.data_models@.take(i as int)),
        decreases model.data_models@.len() - i,
    {
        let (id, data_model) = &model.data_models[i];
        push_declared(&mut out, id, ReferenceKind::DataModel, &Option::None);
        push_ids(&mut out, &data_model.objects, ReferenceKind::DataObject, &Option::Some(id.clone()));
        proof {
            assert(model.data_models@.take(i + 1).drop_last() =~= model.data_models@.take(i as int));
            assert(out@ =~= before_models + data_model_declarations(model.data_models@.take(i + 1)));
        }
        i += 1;
    }
    proof {
        assert(model.data_models@.take(model.data_models@.len() as int) =~= model.data_models@);
    }
    push_ids(&mut out, &model.topics, ReferenceKind::Topic, &Option::None);
    match &model.runtime {
        Option::Some(runtime) => {
            let ghost before = out@;
            push_ids(&mut out, &runtime.execution_pools, ReferenceKind::ExecutionPool, &Option::None);
            push_ids(&mut out, &runtime.routers, ReferenceKind::Router, &Option::None);
            push_ids(&mut out, &runtime.storage_layouts, ReferenceKind::StorageLayout, &Option::None);
            proof {
                assert(out@ =~= before + runtime_declarations(model.runtime));
            }
        },
        Option::None => {
            assert(out@ + Seq::empty() =~= out@);
        },
    }
    let ghost before_machines = out@;
    let mut i: usize = 0;
    while i < model.state_machines.len()
        invariant
            i <= model.state_machines@.len(),
            out@ == before_machines + machine_declarations(model.state_machines@.take(i as int)),
        decreases model.state_machines@.len() - i,
    {
        let (id, machine) = &model.state_machines[i];
        let ghost before = out@;
        push_declared(&mut out, id, ReferenceKind::StateMachine, &Option::None);
        push_ids(&mut out, &machine.states, ReferenceKind::State, &Option::Some(id.clone()));
        let ghost before_transitions = out@;
        let mut k: usize = 0;
        while k < machine.transitions.len()
            invariant
                k <= machine.transitions@.len(),
                out@ == before_transitions + transition_declarations(
                    *id,
                    machine.transitions@.take(k as int),
                ),
            decreases machine.transitions@.len() - k,
        {
            let (transition_id, transition) = &machine.transitions[k];
            push_declared(&mut out, transition_id, ReferenceKind::Transition, &Option::Some(id.clone()));
            push_ids(
                &mut out,
                &transition.side_effects,
                ReferenceKind::Effect,
                &Option::Some(transition_id.clone()),
            );
            proof {
                assert(machine.transitions@.take(k + 1).drop_last() =~= machine.transitions@.take(
                    k as int,
                ));
                assert(out@ =~= before_transitions + transition_declarations(
                    *id,
                    machine.transitions@.take(k + 1),
                ));
            }
            k += 1;
        }
        proof {
            assert(machine.transitions@.take(machine.transitions@.len() as int)
                =~= machine.transitions@);
            assert(model.state_machines@.take(i + 1).drop_last() =~= model.state_machines@.take(
                i as int,
            ));
            assert(out@ =~= before_machines + machine_declarations(
                model.state_machines@.take(i + 1),
            ));
        }
        i += 1;
    }
    proof {
        assert(model.state_machines@.take(model.state_machines@.len() as int)
            =~= model.state_machines@);
    }
    let ghost before_operations = out@;
    let mut i: usize = 0;
    while i < model.operations.len()
        invariant
            i <= model.operations@.len(),
            out@ == before_operations + operation_declarations(model.operations@.take(i as int)),
        decreases model.operations@.len() - i,
    {
        let (id, operation) = &model.operations[i];
        push_declared(&mut out, id, ReferenceKind::Operation, &Option::None);
        let ghost before_inputs = out@;
        let mut k: usize = 0;
        while k < operation.inputs.len()
            invariant
                k <= operation.inputs@.len(),
                out@ == before_inputs + operation.inputs@.take(k as int).map_values(
                    |input: (Id, crate::model::Input)| (input.0, ReferenceKind::Input, Option::Some(*id)),
                ),
            decreases operation.inputs@.len() - k,
        {
            push_declared(&mut out, &operation.inputs[k].0, ReferenceKind::Input, &Option::Some(id.clone()));
            proof {
                assert(out@ =~= before_inputs + operation.inputs@.take(k + 1).map_values(
                    |input: (Id, crate::model::Input)| (input.0, ReferenceKind::Input, Option::Some(*id)),
                ));
            }
            k += 1;
        }
        proof {
            assert(operation.inputs@.take(operation.inputs@.len() as int) =~= operation.inputs@);
        }
        push_block(&mut out, id, &operation.program.steps);
        proof {
            assert(model.operations@.take(i + 1).drop_last() =~= model.operations@.take(i as int));
            assert(out@ =~= before_operations + operation_declarations(model.operations@.take(i + 1)));
        }
        i += 1;
    }
    proof {
        assert(model.operations@.take(model.operations@.len() as int) =~= model.operations@);
        assert(out@ =~= model_declarations(*model));
    }
    out
}

fn copy_declaration(declared: &Declared) -> (r: IdDeclaration)
    ensures
        r == as_declaration(*declared),
{
    IdDeclaration { kind: declared.1, owner: copy_owner(&declared.2) }
}

/// One `DuplicateId` error for each declaration whose identifier an
/// earlier declaration already took, in the order declarations are
/// visited; none exactly when every identifier of the model is
/// declared once.
pub fn validate_global_id_uniqueness(model: &Model) -> (r: Vec<ValidationError>)
    ensures
        r@ == duplicate_errors(model_declarations(*model), model_declarations(*model).len()),
        r@.len() == 0 <==> ids_unique(*model),
{
    let declared = declarations(model);
    let mut errors: Vec<ValidationError> = Vec::new();
    let mut k: usize = 0;
    while k < declared.len()
        invariant
            k <= declared@.len(),
            errors@ == duplicate_errors(declared@, k as nat),
        decreases declared@.len() - k,
    {
        let mut j: usize = 0;
        let mut first: Option<usize> = Option::None;
        while j < k
            invariant
                j <= k < declared@.len(),
                match first {
                    Option::None => forall|m: int|
                        0 <= m < j ==> #[trigger] declared@[m].0@ != declared@[k as int].0@,
                    Option::Some(f) => f < k && declared@[f as int].0@ == declared@[k as int].0@
                        && forall|m: int|
                        0 <= m < f ==> #[trigger] declared@[m].0@ != declared@[k as int].0@,
                },
            decreases k - j,
        {
            if first.is_none() && declared[j].0 == declared[k].0 {
                first = Option::Some(j);
            }
            j += 1;
        }
        match first {
            Option::Some(j) => {
                proof {
                    lemma_first_declared_is(declared@, declared@[k as int].0@, k as int, j as int);
                }
                errors.push(
                    ValidationError::DuplicateId {
                        id: declared[k].0.clone(),
                        first: copy_declaration(&declared[j]),
                        second: copy_declaration(&declared[k]),
                    },
                );
            },
            Option::None => {
                proof {
                    lemma_first_declared_none(declared@, declared@[k as int].0@, k as int);
                }
            },
        }
        k += 1;
    }
    proof {
        lemma_no_duplicates(declared@, declared@.len());
    }
    errors
}


// Every declaration site is declared.

/// Whether `item` is what `step` declares at its own site: the result
/// binding of an effect-executing step, the identifier of an executed
/// effect, or the identifier of a transaction, each owned by
/// `operation`.
pub open spec fn declared_at_site(operation: Id, step: OperationStep, item: Declared) -> bool {
    ||| (result_binding(step) matches Option::Some(bind) && item == (
        bind,
        ReferenceKind::EffectResult,
        Option::Some(operation),
    ))
    ||| (step matches OperationStep::ExecuteEffect(s) && item == (
        s.effect_id,
        ReferenceKind::Effect,
        Option::Some(operation),
    ))
    ||| (step matches OperationStep::Transaction(execution) && item == (
        execution.transaction.id,
        ReferenceKind::Transaction,
        Option::Some(operation),
    ))
}

proof fn lemma_site_declared(operation: Id, step: OperationStep, item: Declared)
    requires
        declared_at_site(operation, step, item),
    ensures
        step_declarations(operation, step).contains(item),
{
    let declared = step_declarations(operation, step);
    match step {
        OperationStep::ExecuteEffect(s) => {
            if item.1 == ReferenceKind::Effect {
                assert(declared[0] == item);
            } else {
                assert(declared[declared.len() - 1] == item);
            }
        },
        OperationStep::ExecuteEffectIntent(s) => {
            assert(declared[declared.len() - 1] == item);
        },
        OperationStep::Transaction(execution) => {
            assert(declared[0] == item);
        },
        _ => {},
    }
}

proof fn lemma_steps_site_declared(
    operation: Id,
    steps: Seq<OperationStep>,
    count: nat,
    target: OperationStep,
    item: Declared,
)
    requires
        steps_hold(steps, count, target),
        declared_at_site(operation, target, item),
    ensures
        block_declarations(operation, steps, count).contains(item),
    decreases steps, 1nat, count,
{
    let earlier = block_declarations(operation, steps, (count - 1) as nat);
    let here = step_declarations(operation, steps[count - 1]);
    if steps_hold(steps, (count - 1) as nat, target) {
        lemma_steps_site_declared(operation, steps, (count - 1) as nat, target, item);
    } else if steps[count - 1] == target {
        lemma_site_declared(operation, target, item);
    } else {
        assert(decreases_to!(steps => steps[count - 1]));
        lemma_step_holds_site_declared(operation, steps[count - 1], target, item);
    }
    lemma_contains_concat(earlier, here, item);
}

proof fn lemma_arms_site_declared(
    operation: Id,
    arms: Seq<ErrorArm>,
    count: nat,
    target: OperationStep,
    item: Declared,
)
    requires
        arms_hold(arms, count, target),
        declared_at_site(operation, target, item),
    ensures
        arms_declarations(operation, arms, count).contains(item),
    decreases arms, 1nat, count,
{
    let arm = arms[count - 1];
    let earlier = arms_declarations(operation, arms, (count - 1) as nat);
    let here = block_declarations(operation, arm.block.steps@, arm.block.steps@.len());
    if arms_hold(arms, (count - 1) as nat, target) {
        lemma_arms_site_declared(operation, arms, (count - 1) as nat, target, item);
    } else {
        assert(decreases_to!(arms => arms[count - 1]));
        lemma_steps_site_declared(operation, arm.block.steps@, arm.block.steps@.len(), target, item);
    }
    lemma_contains_concat(earlier, here, item);
}

proof fn lemma_step_holds_site_declared(operation: Id, step: OperationStep, target: OperationStep, item: Declared)
    requires
        step_holds(step, target),
        declared_at_site(operation, target, item),
    ensures
        step_declarations(operation, step).contains(item),
    decreases step, 0nat, 0nat,
{
    match step {
        OperationStep::Transaction(execute) => {
            let transaction = execute.transaction;
            let block = execute.rejected.unwrap();
            let head = seq![(transaction.id, ReferenceKind::Transaction, Option::Some(operation))]
                + transaction_body_declarations(
                operation,
                transaction.id,
                transaction.steps@,
                transaction.steps@.len(),
            );
            lemma_steps_site_declared(operation, block.steps@, block.steps@.len(), target, item);
            lemma_contains_concat(
                head,
                block_declarations(operation, block.steps@, block.steps@.len()),
                item,
            );
        },
        OperationStep::MatchResult(s) => {
            let ok = block_declarations(operation, s.ok.steps@, s.ok.steps@.len());
            let arms = arms_declarations(operation, s.errors@, s.errors@.len());
            if steps_hold(s.ok.steps@, s.ok.steps@.len(), target) {
                lemma_steps_site_declared(operation, s.ok.steps@, s.ok.steps@.len(), target, item);
            } else {
                lemma_arms_site_declared(operation, s.errors@, s.errors@.len(), target, item);
            }
            lemma_contains_concat(ok, arms, item);
        },
        OperationStep::Branch(s) => {
            let first = block_declarations(operation, s.then_block.steps@, s.then_block.steps@.len());
            let second = match s.otherwise {
                Option::Some(block) => block_declarations(operation, block.steps@, block.steps@.len()),
                Option::None => Seq::empty(),
            };
            if steps_hold(s.then_block.steps@, s.then_block.steps@.len(), target) {
                lemma_steps_site_declared(
                    operation,
                    s.then_block.steps@,
                    s.then_block.steps@.len(),
                    target,
                    item,
                );
            } else {
                let block = s.otherwise.unwrap();
                lemma_steps_site_declared(operation, block.steps@, block.steps@.len(), target, item);
            }
            lemma_contains_concat(first, second, item);
        },
        _ => {},
    }
}

/// The declarations an operation makes outside its program: itself,
/// then its inputs.
pub open spec fn operation_head(id: Id, operation: Operation) -> Seq<Declared> {
    seq![(id, ReferenceKind::Operation, Option::None)] + operation.inputs@.map_values(
        |input: (Id, crate::model::Input)| (input.0, ReferenceKind::Input, Option::Some(id)),
    )
}

proof fn lemma_operations_declare(operations: Seq<(Id, Operation)>, k: int, item: Declared)
    requires
        0 <= k < operations.len(),
        block_declarations(
            operations[k].0,
            operations[k].1.program.steps@,
            operations[k].1.program.steps@.len(),
        ).contains(item) || operation_head(operations[k].0, operations[k].1).contains(item),
    ensures
        operation_declarations(operations).contains(item),
    decreases operations.len(),
{
    let (id, operation) = operations.last();
    let earlier = operation_declarations(operations.drop_last());
    let head = operation_head(id, operation);
    let here = block_declarations(id, operation.program.steps@, operation.program.steps@.len());
    assert(operation_declarations(operations) =~= earlier + head + here);
    if k < operations.len() - 1 {
        assert(operations.drop_last()[k] == operations[k]);
        lemma_operations_declare(operations.drop_last(), k, item);
        lemma_contains_concat(earlier, head, item);
    } else {
        lemma_contains_concat(earlier, head, item);
    }
    lemma_contains_concat(earlier + head, here, item);
}

proof fn lemma_model_declares(model: Model, k: int, item: Declared)
    requires
        0 <= k < model.operations@.len(),
        block_declarations(
            model.operations@[k].0,
            model.operations@[k].1.program.steps@,
            model.operations@[k].1.program.steps@.len(),
        ).contains(item) || operation_head(model.operations@[k].0, model.operations@[k].1).contains(
            item,
        ),
    ensures
        model_declarations(model).contains(item),
{
    lemma_operations_declare(model.operations@, k, item);
    let head = declared_ids(model.services@, ReferenceKind::Service, Option::None) + declared_ids(
        model.schemas@,
        ReferenceKind::Schema,
        Option::None,
    ) + data_model_declarations(model.data_models@) + declared_ids(
        model.topics@,
        ReferenceKind::Topic,
        Option::None,
    ) + runtime_declarations(model.runtime) + machine_declarations(model.state_machines@);
    lemma_contains_concat(head, operation_declarations(model.operations@), item);
}

/// Every result binding an effect-executing step of an operation's
/// program declares, at any depth, is a declaration of the model: an
/// effect result owned by that operation. So is every effect an
/// `execute_effect` step executes and every transaction a step
/// executes. Two sites declaring one identifier therefore collide in
/// the global namespace.
pub proof fn lemma_program_sites_are_declared(model: Model, k: int, step: OperationStep, item: Declared)
    requires
        0 <= k < model.operations@.len(),
        program_holds(model.operations@[k].1.program, step),
        declared_at_site(model.operations@[k].0, step, item),
    ensures
        model_declarations(model).contains(item),
{
    let (id, operation) = model.operations@[k];
    lemma_steps_site_declared(id, operation.program.steps@, operation.program.steps@.len(), step, item);
    lemma_model_declares(model, k, item);
}

/// Every operation and each of its inputs is a declaration of the
/// model, the input owned by the operation.
pub proof fn lemma_operations_and_inputs_are_declared(model: Model, k: int, j: int)
    requires
        0 <= k < model.operations@.len(),
        0 <= j < model.operations@[k].1.inputs@.len(),
    ensures
        model_declarations(model).contains(
            (model.operations@[k].0, ReferenceKind::Operation, Option::None),
        ),
        model_declarations(model).contains(
            (
                model.operations@[k].1.inputs@[j].0,
                ReferenceKind::Input,
                Option::Some(model.operations@[k].0),
            ),
        ),
{
    let (id, operation) = model.operations@[k];
    let head = operation_head(id, operation);
    assert(head[0] == (id, ReferenceKind::Operation, Option::<Id>::None));
    lemma_model_declares(model, k, (id, ReferenceKind::Operation, Option::None));
    assert(head[1 + j] == (operation.inputs@[j].0, ReferenceKind::Input, Option::Some(id)));
    lemma_model_declares(model, k, (operation.inputs@[j].0, ReferenceKind::Input, Option::Some(id)));
}


proof fn lemma_block_declarations_grow(operation: Id, steps: Seq<OperationStep>, shorter: nat, longer: nat)
    requires
        shorter <= longer <= steps.len(),
    ensures
        block_declarations(operation, steps, shorter).len() <= block_declarations(operation, steps, longer).len(),
        forall|q: int|
            0 <= q < block_declarations(operation, steps, shorter).len() ==> #[trigger] block_declarations(
                operation,
                steps,
                longer,
            )[q] == block_declarations(operation, steps, shorter)[q],
    decreases longer,
{
    if shorter < longer {
        lemma_block_declarations_grow(operation, steps, shorter, (longer - 1) as nat);
        let earlier = block_declarations(operation, steps, (longer - 1) as nat);
        let here = step_declarations(operation, steps[longer - 1]);
        assert forall|q: int| 0 <= q < earlier.len() implies #[trigger] (earlier + here)[q] == earlier[q] by {}
    }
}

/// Where a top-level step's own declaration stands among the
/// declarations of the block's first `i + 1` steps, past those of the
/// first `i`.
proof fn lemma_site_position(operation: Id, steps: Seq<OperationStep>, i: int, item: Declared) -> (q: int)
    requires
        0 <= i < steps.len(),
        declared_at_site(operation, steps[i], item),
    ensures
        block_declarations(operation, steps, i as nat).len() <= q < block_declarations(
            operation,
            steps,
            (i + 1) as nat,
        ).len(),
        block_declarations(operation, steps, (i + 1) as nat)[q] == item,
{
    lemma_site_declared(operation, steps[i], item);
    let here = step_declarations(operation, steps[i]);
    let at = choose|at: int| 0 <= at < here.len() && here[at] == item;
    let earlier = block_declarations(operation, steps, i as nat);
    assert((earlier + here)[earlier.len() + at] == here[at]);
    earlier.len() + at
}

proof fn lemma_operation_declarations_grow(operations: Seq<(Id, Operation)>, shorter: int, longer: int)
    requires
        0 <= shorter <= longer <= operations.len(),
    ensures
        operation_declarations(operations.take(shorter)).len() <= operation_declarations(
            operations.take(longer),
        ).len(),
        forall|q: int|
            0 <= q < operation_declarations(operations.take(shorter)).len()
                ==> #[trigger] operation_declarations(operations.take(longer))[q]
                == operation_declarations(operations.take(shorter))[q],
    decreases longer,
{
    if shorter < longer {
        lemma_operation_declarations_grow(operations, shorter, longer - 1);
        assert(operations.take(longer).drop_last() =~= operations.take(longer - 1));
        let earlier = operation_declarations(operations.take(longer - 1));
        let rest = operation_declarations(operations.take(longer)).subrange(
            earlier.len() as int,
            operation_declarations(operations.take(longer)).len() as int,
        );
        let (id, operation) = operations.take(longer).last();
        assert(operation_declarations(operations.take(longer)) =~= earlier + (operation_head(id, operation)
            + block_declarations(id, operation.program.steps@, operation.program.steps@.len())));
    }
}

/// Two top-level steps of one operation's program that declare the same
/// identifier at their sites (two producers of one result binding, say)
/// collide: the model's identifiers are not unique, so uniqueness
/// validation reports a duplicate.
pub proof fn lemma_two_sites_collide(model: Model, k: int, first: int, second: int, one: Declared, other: Declared)
    requires
        0 <= k < model.operations@.len(),
        0 <= first < second < model.operations@[k].1.program.steps@.len(),
        declared_at_site(model.operations@[k].0, model.operations@[k].1.program.steps@[first], one),
        declared_at_site(model.operations@[k].0, model.operations@[k].1.program.steps@[second], other),
        one.0@ == other.0@,
    ensures
        !ids_unique(model),
{
    let operations = model.operations@;
    let (id, operation) = operations[k];
    let steps = operation.program.steps@;
    let count = steps.len();
    let a = lemma_site_position(id, steps, first, one);
    let b = lemma_site_position(id, steps, second, other);
    lemma_block_declarations_grow(id, steps, (first + 1) as nat, second as nat);
    lemma_block_declarations_grow(id, steps, (first + 1) as nat, count);
    lemma_block_declarations_grow(id, steps, (second + 1) as nat, count);
    let block = block_declarations(id, steps, count);
    assert(block[a] == one);
    assert(block[b] == other);
    assert(a < b);
    // The block's declarations within the operations' declarations.
    let before = operation_declarations(operations.take(k));
    let head = operation_head(id, operation);
    assert(operations.take(k + 1).drop_last() =~= operations.take(k));
    assert(operations.take(k + 1).last() == operations[k]);
    let upto = operation_declarations(operations.take(k + 1));
    assert(upto =~= before + head + block);
    let offset = before.len() + head.len();
    assert(upto[offset + a] == one);
    assert(upto[offset + b] == other);
    lemma_operation_declarations_grow(operations, k + 1, operations.len() as int);
    assert(operations.take(operations.len() as int) =~= operations);
    let all_operations = operation_declarations(operations);
    assert(all_operations[offset + a] == one);
    assert(all_operations[offset + b] == other);
    let top = declared_ids(model.services@, ReferenceKind::Service, Option::None) + declared_ids(
        model.schemas@,
        ReferenceKind::Schema,
        Option::None,
    ) + data_model_declarations(model.data_models@) + declared_ids(
        model.topics@,
        ReferenceKind::Topic,
        Option::None,
    ) + runtime_declarations(model.runtime) + machine_declarations(model.state_machines@);
    let declarations = model_declarations(model);
    assert(declarations =~= top + all_operations);
    let x = top.len() + offset + a;
    let y = top.len() + offset + b;
    assert(declarations[x] == one);
    assert(declarations[y] == other);
    assert(declarations[x].0@ == declarations[y].0@);
}

} // verus!
